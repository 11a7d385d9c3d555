//! Routing matrices between input channels, intermediate tracks and outputs.
//!
//! The split mixer sends every input channel to the tracks it owns: a main
//! speaker with a crossover owns two consecutive tracks, its own and its
//! low-frequency feed; a main speaker without one owns a single track; the
//! subwoofer input owns one track after all of these. The combine mixer
//! sends each main speaker's own track to its output and sums all
//! low-frequency feeds and the subwoofer input into every subwoofer output.

use crate::name_map::{lemma_lookup_at, lookup_map, names_of, values_of, NameMap};
use crate::processor::Speaker;
use crate::text::{append_decimal, decimal, names_increasing};
use vstd::prelude::*;
use vstd::string::*;

verus! {

/// The number of subwoofer input channels that are assumed whenever the
/// layout has a subwoofer, however many subwoofer outputs there are.
pub const NUM_INPUT_SUBWOOFERS: usize = 1;

/// The boost in dB that the split mixer gives a subwoofer input.
pub const SUBWOOFER_INPUT_GAIN: i32 = 10;

/// The number of channels entering and leaving a routing matrix.
#[derive(Clone, Copy, Debug, PartialEq, Eq, Structural)]
pub struct ChannelCount {
    pub num_in_channel: usize,
    pub num_out_channel: usize,
}

/// One contribution to a destination channel.
#[derive(Clone, Copy, Debug, PartialEq, Eq, Structural)]
pub struct Source {
    pub channel: usize,
    pub gain: i32,
    pub inverted: bool,
}

/// A destination channel and the sources that are summed into it.
#[derive(Clone, Debug, PartialEq, Eq)]
pub struct Mapping {
    pub sources: Vec<Source>,
    pub dest: usize,
}

/// A routing matrix.
#[derive(Clone, Debug, PartialEq, Eq)]
pub struct Mixer {
    pub channels: ChannelCount,
    pub mapping: Vec<Mapping>,
}

/// What a [`Mapping`] holds.
pub struct MappingView {
    pub sources: Seq<Source>,
    pub dest: usize,
}

/// What a [`Mixer`] holds.
pub struct MixerView {
    pub channels: ChannelCount,
    pub mapping: Seq<MappingView>,
}

impl View for Mapping {
    type V = MappingView;

    open spec fn view(&self) -> MappingView {
        MappingView { sources: self.sources@, dest: self.dest }
    }
}

impl View for Mixer {
    type V = MixerView;

    open spec fn view(&self) -> MixerView {
        MixerView {
            channels: self.channels,
            mapping: Seq::new(self.mapping@.len(), |i: int| self.mapping@[i]@),
        }
    }
}

impl MixerView {
    /// Every source is one of the matrix's input channels and every
    /// destination one of its output channels.
    pub open spec fn in_range(self) -> bool {
        forall|i: int|
            0 <= i < self.mapping.len() ==> {
                &&& (#[trigger] self.mapping[i]).dest < self.channels.num_out_channel
                &&& forall|j: int|
                    0 <= j < self.mapping[i].sources.len() ==> (
                    #[trigger] self.mapping[i].sources[j]).channel < self.channels.num_in_channel
            }
    }
}

/// What the split mixer needs to know of one input channel.
#[derive(Clone, Debug, PartialEq, Eq)]
pub struct InputChannelEntry {
    /// Whether the channel is split into a high and a low track.
    pub has_crossover: bool,
    /// Whether the channel is a subwoofer input.
    pub is_subwoofer: bool,
    /// The input channel.
    pub origin_index: usize,
    /// The tracks that the channel owns.
    pub tracks: Vec<usize>,
}

/// What the combine mixer needs to know of one output channel.
#[derive(Clone, Debug, PartialEq, Eq)]
pub struct OutputChannelEntry {
    /// The output channel.
    pub dest_index: usize,
    /// The tracks that are summed into the channel.
    pub tracks: Vec<usize>,
}

/// What an [`InputChannelEntry`] holds.
pub struct InputChannelView {
    pub has_crossover: bool,
    pub is_subwoofer: bool,
    pub origin_index: usize,
    pub tracks: Seq<usize>,
}

/// What an [`OutputChannelEntry`] holds.
pub struct OutputChannelView {
    pub dest_index: usize,
    pub tracks: Seq<usize>,
}

impl View for InputChannelEntry {
    type V = InputChannelView;

    open spec fn view(&self) -> InputChannelView {
        InputChannelView {
            has_crossover: self.has_crossover,
            is_subwoofer: self.is_subwoofer,
            origin_index: self.origin_index,
            tracks: self.tracks@,
        }
    }
}

impl View for OutputChannelEntry {
    type V = OutputChannelView;

    open spec fn view(&self) -> OutputChannelView {
        OutputChannelView { dest_index: self.dest_index, tracks: self.tracks@ }
    }
}

/// The speakers of a layout, counted by kind.
#[derive(Clone, Debug, PartialEq, Eq)]
pub struct SpeakerCounts {
    /// The number of main speakers.
    pub speakers_exclude_sub: usize,
    /// The number of subwoofer input channels.
    pub input_subwoofers: usize,
    /// The number of subwoofer outputs.
    pub output_subwoofers: usize,
    /// The names under which the subwoofer inputs are kept.
    pub input_subwoofer_speakers: Vec<String>,
}

/// The number of subwoofers among the first `n` speakers.
pub open spec fn subwoofers_before<N>(speakers: Seq<Speaker<N>>, n: int) -> nat
    decreases n,
{
    if n <= 0 {
        0
    } else if speakers[n - 1].is_subwoofer {
        subwoofers_before(speakers, n - 1) + 1
    } else {
        subwoofers_before(speakers, n - 1)
    }
}

/// The number of main speakers among the first `n` speakers.
pub open spec fn mains_before<N>(speakers: Seq<Speaker<N>>, n: int) -> nat
    decreases n,
{
    if n <= 0 {
        0
    } else if speakers[n - 1].is_subwoofer {
        mains_before(speakers, n - 1)
    } else {
        mains_before(speakers, n - 1) + 1
    }
}

/// The number of subwoofer outputs.
pub open spec fn subwoofer_count<N>(speakers: Seq<Speaker<N>>) -> nat {
    subwoofers_before(speakers, speakers.len() as int)
}

/// The number of main speakers.
pub open spec fn main_count<N>(speakers: Seq<Speaker<N>>) -> nat {
    mains_before(speakers, speakers.len() as int)
}

/// The number of subwoofer inputs.
pub open spec fn input_subwoofer_count<N>(speakers: Seq<Speaker<N>>) -> nat {
    if subwoofer_count(speakers) > 0 {
        NUM_INPUT_SUBWOOFERS as nat
    } else {
        0
    }
}

/// Every speaker is a main speaker or a subwoofer.
pub proof fn lemma_mains_and_subwoofers<N>(speakers: Seq<Speaker<N>>, n: int)
    requires
        0 <= n,
    ensures
        mains_before(speakers, n) + subwoofers_before(speakers, n) == n,
    decreases n,
{
    if n > 0 {
        lemma_mains_and_subwoofers(speakers, n - 1);
    }
}

/// The name under which the subwoofer input `index` is kept.
pub open spec fn subwoofer_input_name_spec(index: nat) -> Seq<char> {
    "subwoofer_input_"@ + decimal(index)
}

/// The name under which the subwoofer input `index` is kept.
pub fn subwoofer_input_name(index: usize) -> (name: String)
    ensures
        name@ == subwoofer_input_name_spec(index as nat),
{
    let mut name = String::from_str("subwoofer_input_");
    append_decimal(&mut name, index);
    name
}

impl SpeakerCounts {
    /// These are the counts of `speakers`.
    pub open spec fn describes<N>(&self, speakers: Seq<Speaker<N>>) -> bool {
        &&& self.output_subwoofers == subwoofer_count(speakers)
        &&& self.input_subwoofers == input_subwoofer_count(speakers)
        &&& self.speakers_exclude_sub == main_count(speakers)
        &&& self.input_subwoofer_speakers@.len() == self.input_subwoofers
        &&& forall|k: int|
            0 <= k < self.input_subwoofers ==> (#[trigger] self.input_subwoofer_speakers@[k])@
                == subwoofer_input_name_spec(k as nat)
    }
}

/// Name under which the mixer that splits the inputs into tracks is stored.
pub fn split_mixer_name() -> (name: String)
    ensures
        name@ == "split_non_sub"@,
{
    String::from_str("split_non_sub")
}

/// Name under which the mixer that combines the tracks into outputs is stored.
pub fn combine_mixer_name() -> (name: String)
    ensures
        name@ == "combine_sub"@,
{
    String::from_str("combine_sub")
}

/// Counts the main speakers and the subwoofers of a layout and names its
/// subwoofer inputs.
pub fn get_speaker_counts<N>(speakers: &[Speaker<N>]) -> (counts: SpeakerCounts)
    ensures
        counts.describes(speakers@),
{
    let mut output_subwoofers: usize = 0;
    let mut i: usize = 0;
    while i < speakers.len()
        invariant
            i <= speakers@.len(),
            output_subwoofers == subwoofers_before(speakers@, i as int),
            output_subwoofers <= i,
        decreases speakers.len() - i,
    {
        if speakers[i].is_subwoofer {
            output_subwoofers += 1;
        }
        i += 1;
    }
    let input_subwoofers = if output_subwoofers > 0 {
        NUM_INPUT_SUBWOOFERS
    } else {
        0
    };
    let speakers_exclude_sub = speakers.len() - output_subwoofers;
    proof {
        lemma_mains_and_subwoofers(speakers@, speakers@.len() as int);
    }
    let mut input_subwoofer_speakers: Vec<String> = Vec::new();
    let mut k: usize = 0;
    while k < input_subwoofers
        invariant
            k <= input_subwoofers,
            input_subwoofer_speakers@.len() == k,
            forall|j: int|
                0 <= j < k ==> (#[trigger] input_subwoofer_speakers@[j])@
                    == subwoofer_input_name_spec(j as nat),
        decreases input_subwoofers - k,
    {
        input_subwoofer_speakers.push(subwoofer_input_name(k));
        k += 1;
    }
    SpeakerCounts {
        speakers_exclude_sub,
        input_subwoofers,
        output_subwoofers,
        input_subwoofer_speakers,
    }
}

/// The number of channels that the engine captures.
pub fn input_speaker_count(speaker_counts: &SpeakerCounts) -> (n: usize)
    requires
        speaker_counts.speakers_exclude_sub + speaker_counts.input_subwoofers <= usize::MAX,
    ensures
        n == speaker_counts.speakers_exclude_sub + speaker_counts.input_subwoofers,
{
    speaker_counts.speakers_exclude_sub + speaker_counts.input_subwoofers
}

/// The number of channels that the engine plays.
pub fn output_speaker_count_no_mixer(speaker_counts: &SpeakerCounts) -> (n: usize)
    requires
        speaker_counts.speakers_exclude_sub + speaker_counts.output_subwoofers <= usize::MAX,
    ensures
        n == speaker_counts.speakers_exclude_sub + speaker_counts.output_subwoofers,
{
    speaker_counts.speakers_exclude_sub + speaker_counts.output_subwoofers
}

/// The number of tracks that a speaker owns.
pub open spec fn track_width<N>(speaker: Speaker<N>) -> nat {
    if speaker.is_subwoofer {
        0
    } else if speaker.crossover is Some {
        2
    } else {
        1
    }
}

/// The number of tracks that the first `n` speakers own: the first track
/// of speaker `n`.
pub open spec fn tracks_before<N>(speakers: Seq<Speaker<N>>, n: int) -> nat
    decreases n,
{
    if n <= 0 {
        0
    } else {
        tracks_before(speakers, n - 1) + track_width(speakers[n - 1])
    }
}

/// The number of tracks that the main speakers own: the track of the
/// first subwoofer input.
pub open spec fn main_track_count<N>(speakers: Seq<Speaker<N>>) -> nat {
    tracks_before(speakers, speakers.len() as int)
}

/// The number of tracks between the two mixers.
pub open spec fn track_count<N>(speakers: Seq<Speaker<N>>) -> nat {
    main_track_count(speakers) + input_subwoofer_count(speakers)
}

/// No speaker owns more than two tracks.
pub proof fn lemma_tracks_before_bound<N>(speakers: Seq<Speaker<N>>, n: int)
    requires
        0 <= n,
    ensures
        tracks_before(speakers, n) <= 2 * mains_before(speakers, n),
        mains_before(speakers, n) <= n,
    decreases n,
{
    if n > 0 {
        lemma_tracks_before_bound(speakers, n - 1);
    }
}

/// The tracks are allocated in the order of the speakers.
pub proof fn lemma_tracks_before_monotonic<N>(speakers: Seq<Speaker<N>>, m: int, n: int)
    requires
        0 <= m <= n,
    ensures
        tracks_before(speakers, m) <= tracks_before(speakers, n),
        mains_before(speakers, m) <= mains_before(speakers, n),
    decreases n - m,
{
    if m < n {
        lemma_tracks_before_monotonic(speakers, m, n - 1);
    }
}

/// The layout is small enough for its tracks to be numbered.
pub open spec fn tracks_fit<N>(speakers: Seq<Speaker<N>>) -> bool {
    2 * speakers.len() + NUM_INPUT_SUBWOOFERS <= usize::MAX
}

/// The record of the main speaker at position `i`: its input channel is
/// its rank among the main speakers.
pub open spec fn main_input_entry<N>(speakers: Seq<Speaker<N>>, i: int) -> InputChannelView {
    let track = tracks_before(speakers, i);
    InputChannelView {
        has_crossover: speakers[i].crossover is Some,
        is_subwoofer: false,
        origin_index: mains_before(speakers, i) as usize,
        tracks: if speakers[i].crossover is Some {
            seq![track as usize, (track + 1) as usize]
        } else {
            seq![track as usize]
        },
    }
}

/// The records of the main speakers among the first `n` speakers, by
/// name. Of two speakers with one name the later one is kept.
pub open spec fn main_inputs<N>(speakers: Seq<Speaker<N>>, n: int) -> Map<
    Seq<char>,
    InputChannelView,
>
    decreases n,
{
    if n <= 0 {
        Map::empty()
    } else if speakers[n - 1].is_subwoofer {
        main_inputs(speakers, n - 1)
    } else {
        main_inputs(speakers, n - 1).insert(
            speakers[n - 1].speaker@,
            main_input_entry(speakers, n - 1),
        )
    }
}

/// The record of the subwoofer input `k`, which follows the main speakers
/// both as an input channel and as a track.
pub open spec fn subwoofer_input_entry<N>(speakers: Seq<Speaker<N>>, k: int) -> InputChannelView {
    InputChannelView {
        has_crossover: false,
        is_subwoofer: true,
        origin_index: (main_count(speakers) + k) as usize,
        tracks: seq![(main_track_count(speakers) + k) as usize],
    }
}

/// The records of the main speakers and of the first `k` subwoofer inputs.
pub open spec fn inputs_upto<N>(speakers: Seq<Speaker<N>>, k: int) -> Map<
    Seq<char>,
    InputChannelView,
>
    decreases k,
{
    if k <= 0 {
        main_inputs(speakers, speakers.len() as int)
    } else {
        inputs_upto(speakers, k - 1).insert(
            subwoofer_input_name_spec((k - 1) as nat),
            subwoofer_input_entry(speakers, k - 1),
        )
    }
}

/// The records of all input channels, by name.
pub open spec fn input_table<N>(speakers: Seq<Speaker<N>>) -> Map<Seq<char>, InputChannelView> {
    inputs_upto(speakers, input_subwoofer_count(speakers) as int)
}

/// The low-frequency tracks of the first `n` speakers.
pub open spec fn low_tracks<N>(speakers: Seq<Speaker<N>>, n: int) -> Seq<usize>
    decreases n,
{
    if n <= 0 {
        Seq::empty()
    } else if !speakers[n - 1].is_subwoofer && speakers[n - 1].crossover is Some {
        low_tracks(speakers, n - 1).push((tracks_before(speakers, n - 1) + 1) as usize)
    } else {
        low_tracks(speakers, n - 1)
    }
}

/// The tracks of the first `k` subwoofer inputs.
pub open spec fn subwoofer_input_tracks<N>(speakers: Seq<Speaker<N>>, k: int) -> Seq<usize> {
    Seq::new(k as nat, |j: int| (main_track_count(speakers) + j) as usize)
}

/// The tracks that are summed into every subwoofer output: the
/// low-frequency track of each main speaker with a crossover, then the
/// subwoofer inputs.
pub open spec fn subwoofer_feed<N>(speakers: Seq<Speaker<N>>) -> Seq<usize> {
    low_tracks(speakers, speakers.len() as int) + subwoofer_input_tracks(
        speakers,
        input_subwoofer_count(speakers) as int,
    )
}

/// The record of the speaker at position `i`, whose output channel is `i`.
pub open spec fn output_entry<N>(speakers: Seq<Speaker<N>>, i: int) -> OutputChannelView {
    OutputChannelView {
        dest_index: i as usize,
        tracks: if speakers[i].is_subwoofer {
            subwoofer_feed(speakers)
        } else {
            seq![tracks_before(speakers, i) as usize]
        },
    }
}

/// The records of the first `n` speakers, by name. Of two speakers with
/// one name the later one is kept.
pub open spec fn outputs_upto<N>(speakers: Seq<Speaker<N>>, n: int) -> Map<
    Seq<char>,
    OutputChannelView,
>
    decreases n,
{
    if n <= 0 {
        Map::empty()
    } else {
        outputs_upto(speakers, n - 1).insert(speakers[n - 1].speaker@, output_entry(speakers, n - 1))
    }
}

/// The records of all output channels, by name.
pub open spec fn output_table<N>(speakers: Seq<Speaker<N>>) -> Map<Seq<char>, OutputChannelView> {
    outputs_upto(speakers, speakers.len() as int)
}

/// The gain that the split mixer gives an input channel.
pub open spec fn input_gain(entry: InputChannelView) -> i32 {
    if entry.is_subwoofer {
        SUBWOOFER_INPUT_GAIN
    } else {
        0
    }
}

/// What the split mixer does with one input channel: the channel is the
/// single source of each track that it owns.
pub open spec fn split_entry_mapping(entry: InputChannelView) -> Seq<MappingView> {
    Seq::new(
        entry.tracks.len(),
        |k: int|
            MappingView {
                sources: seq![
                    Source {
                        channel: entry.origin_index,
                        gain: input_gain(entry),
                        inverted: false,
                    },
                ],
                dest: entry.tracks[k],
            },
    )
}

/// What the split mixer does with the first `n` of `entries`.
pub open spec fn split_mapping(entries: Seq<InputChannelView>, n: int) -> Seq<MappingView>
    decreases n,
{
    if n <= 0 {
        Seq::empty()
    } else {
        split_mapping(entries, n - 1) + split_entry_mapping(entries[n - 1])
    }
}

/// The split mixer of a layout whose input channels are `entries`, in the
/// order of their names.
pub open spec fn split_mixer<N>(
    speakers: Seq<Speaker<N>>,
    entries: Seq<InputChannelView>,
) -> MixerView {
    MixerView {
        channels: ChannelCount {
            num_in_channel: (main_count(speakers) + input_subwoofer_count(speakers)) as usize,
            num_out_channel: track_count(speakers) as usize,
        },
        mapping: split_mapping(entries, entries.len() as int),
    }
}

/// Allocates the tracks of a layout with at least one subwoofer and
/// builds the split mixer and the records of the input and the output
/// channels; `None` for a layout without a subwoofer.
pub fn split_inputs<N>(speakers: &[Speaker<N>], speaker_counts: &SpeakerCounts) -> (r: Option<
    (Mixer, NameMap<InputChannelEntry>, NameMap<OutputChannelEntry>),
>)
    requires
        speaker_counts.describes(speakers@),
        tracks_fit(speakers@),
    ensures
        r is None <==> subwoofer_count(speakers@) == 0,
        match r {
            Some((mixer, inputs, outputs)) => {
                &&& inputs.wf()
                &&& inputs@ == input_table(speakers@)
                &&& outputs.wf()
                &&& outputs@ == output_table(speakers@)
                &&& mixer@ == split_mixer(speakers@, inputs.value_views())
            },
            None => true,
        },
{
    if speaker_counts.output_subwoofers == 0 {
        return None;
    }
    let ghost sp = speakers@;
    let mut inputs: NameMap<InputChannelEntry> = NameMap::new();
    let mut feed: Vec<usize> = Vec::new();
    let mut track: usize = 0;
    let mut origin: usize = 0;
    let mut i: usize = 0;
    while i < speakers.len()
        invariant
            sp == speakers@,
            tracks_fit(sp),
            i <= sp.len(),
            inputs.wf(),
            inputs@ == main_inputs(sp, i as int),
            feed@ == low_tracks(sp, i as int),
            track == tracks_before(sp, i as int),
            origin == mains_before(sp, i as int),
        decreases speakers.len() - i,
    {
        proof {
            lemma_tracks_before_bound(sp, i as int);
        }
        let speaker = &speakers[i];
        if !speaker.is_subwoofer {
            if speaker.crossover.is_some() {
                let mut tracks: Vec<usize> = Vec::new();
                tracks.push(track);
                tracks.push(track + 1);
                assert(tracks@ =~= seq![track, (track + 1) as usize]);
                inputs.insert(
                    speaker.speaker.clone(),
                    InputChannelEntry {
                        has_crossover: true,
                        is_subwoofer: false,
                        origin_index: origin,
                        tracks,
                    },
                );
                feed.push(track + 1);
                track += 2;
            } else {
                let mut tracks: Vec<usize> = Vec::new();
                tracks.push(track);
                assert(tracks@ =~= seq![track]);
                inputs.insert(
                    speaker.speaker.clone(),
                    InputChannelEntry {
                        has_crossover: false,
                        is_subwoofer: false,
                        origin_index: origin,
                        tracks,
                    },
                );
                track += 1;
            }
            origin += 1;
        }
        i += 1;
    }
    proof {
        lemma_tracks_before_bound(sp, sp.len() as int);
        assert(feed@ + subwoofer_input_tracks(sp, 0) =~= feed@);
    }
    let mut k: usize = 0;
    while k < speaker_counts.input_subwoofer_speakers.len()
        invariant
            sp == speakers@,
            tracks_fit(sp),
            speaker_counts.describes(sp),
            subwoofer_count(sp) > 0,
            k <= speaker_counts.input_subwoofer_speakers@.len(),
            inputs.wf(),
            inputs@ == inputs_upto(sp, k as int),
            feed@ == low_tracks(sp, sp.len() as int) + subwoofer_input_tracks(sp, k as int),
            track == main_track_count(sp) + k,
            main_track_count(sp) <= 2 * main_count(sp),
            main_count(sp) <= sp.len(),
        decreases speaker_counts.input_subwoofer_speakers.len() - k,
    {
        let mut tracks: Vec<usize> = Vec::new();
        tracks.push(track);
        assert(tracks@ =~= seq![track]);
        inputs.insert(
            speaker_counts.input_subwoofer_speakers[k].clone(),
            InputChannelEntry {
                has_crossover: false,
                is_subwoofer: true,
                origin_index: speaker_counts.speakers_exclude_sub + k,
                tracks,
            },
        );
        feed.push(track);
        proof {
            assert(feed@ =~= low_tracks(sp, sp.len() as int) + subwoofer_input_tracks(
                sp,
                k + 1,
            ));
        }
        track += 1;
        k += 1;
    }
    let mut outputs: NameMap<OutputChannelEntry> = NameMap::new();
    let mut own: usize = 0;
    let mut i: usize = 0;
    while i < speakers.len()
        invariant
            sp == speakers@,
            tracks_fit(sp),
            i <= sp.len(),
            outputs.wf(),
            outputs@ == outputs_upto(sp, i as int),
            own == tracks_before(sp, i as int),
            feed@ == subwoofer_feed(sp),
        decreases speakers.len() - i,
    {
        proof {
            lemma_tracks_before_bound(sp, i as int);
        }
        let speaker = &speakers[i];
        if speaker.is_subwoofer {
            outputs.insert(
                speaker.speaker.clone(),
                OutputChannelEntry { dest_index: i, tracks: copy_tracks(&feed) },
            );
        } else {
            let mut tracks: Vec<usize> = Vec::new();
            tracks.push(own);
            assert(tracks@ =~= seq![own]);
            outputs.insert(speaker.speaker.clone(), OutputChannelEntry { dest_index: i, tracks });
            if speaker.crossover.is_some() {
                own += 2;
            } else {
                own += 1;
            }
        }
        i += 1;
    }
    let channels = ChannelCount {
        num_in_channel: input_speaker_count(speaker_counts),
        num_out_channel: track,
    };
    let mapping = split_mapping_of(&inputs);
    Some((Mixer { channels, mapping }, inputs, outputs))
}

/// A copy of a list of tracks.
fn copy_tracks(tracks: &Vec<usize>) -> (copy: Vec<usize>)
    ensures
        copy@ == tracks@,
{
    let mut copy: Vec<usize> = Vec::new();
    let mut i: usize = 0;
    while i < tracks.len()
        invariant
            i <= tracks@.len(),
            copy@ == tracks@.take(i as int),
        decreases tracks.len() - i,
    {
        copy.push(tracks[i]);
        proof {
            assert(copy@ =~= tracks@.take(i + 1));
        }
        i += 1;
    }
    assert(tracks@.take(tracks@.len() as int) =~= tracks@);
    copy
}

/// The mapping of the split mixer for the input channels of `inputs`.
fn split_mapping_of(inputs: &NameMap<InputChannelEntry>) -> (mapping: Vec<Mapping>)
    requires
        inputs.wf(),
    ensures
        Seq::new(mapping@.len(), |i: int| mapping@[i]@) == split_mapping(
            inputs.value_views(),
            inputs.value_views().len() as int,
        ),
{
    let ghost entries = inputs.value_views();
    let mut mapping: Vec<Mapping> = Vec::new();
    let mut i: usize = 0;
    while i < inputs.len()
        invariant
            inputs.wf(),
            entries == inputs.value_views(),
            i <= entries.len(),
            Seq::new(mapping@.len(), |j: int| mapping@[j]@) == split_mapping(entries, i as int),
        decreases entries.len() - i,
    {
        let entry = inputs.value_at(i);
        let ghost done = Seq::new(mapping@.len(), |j: int| mapping@[j]@);
        let mut k: usize = 0;
        while k < entry.tracks.len()
            invariant
                entry@ == entries[i as int],
                k <= entry.tracks@.len(),
                Seq::new(mapping@.len(), |j: int| mapping@[j]@) == done + split_entry_mapping(
                    entry@,
                ).take(k as int),
            decreases entry.tracks.len() - k,
        {
            let gain = if entry.is_subwoofer {
                SUBWOOFER_INPUT_GAIN
            } else {
                0
            };
            let mut sources: Vec<Source> = Vec::new();
            sources.push(Source { channel: entry.origin_index, gain, inverted: false });
            let ghost before = Seq::new(mapping@.len(), |j: int| mapping@[j]@);
            mapping.push(Mapping { sources, dest: entry.tracks[k] });
            proof {
                let after = Seq::new(mapping@.len(), |j: int| mapping@[j]@);
                assert(sources@ =~= seq![
                    Source { channel: entry.origin_index, gain, inverted: false },
                ]);
                assert(after =~= before.push(split_entry_mapping(entry@)[k as int]));
                assert(split_entry_mapping(entry@).take(k + 1) =~= split_entry_mapping(
                    entry@,
                ).take(k as int).push(split_entry_mapping(entry@)[k as int]));
                assert(after =~= done + split_entry_mapping(entry@).take(k + 1));
            }
            k += 1;
        }
        proof {
            assert(split_entry_mapping(entry@).take(entry.tracks@.len() as int)
                =~= split_entry_mapping(entry@));
        }
        i += 1;
    }
    mapping
}

/// What the combine mixer does with one output channel: its tracks are
/// summed into it unchanged.
pub open spec fn combine_entry_mapping(entry: OutputChannelView) -> MappingView {
    MappingView {
        sources: Seq::new(
            entry.tracks.len(),
            |k: int| Source { channel: entry.tracks[k], gain: 0, inverted: false },
        ),
        dest: entry.dest_index,
    }
}

/// The combine mixer that takes `tracks` tracks to `outputs` output
/// channels whose records are `entries`, in the order of their names.
pub open spec fn combine_mixer(
    tracks: usize,
    outputs: usize,
    entries: Seq<OutputChannelView>,
) -> MixerView {
    MixerView {
        channels: ChannelCount { num_in_channel: tracks, num_out_channel: outputs },
        mapping: Seq::new(entries.len(), |i: int| combine_entry_mapping(entries[i])),
    }
}

/// Builds the combine mixer, which follows the split mixer and the
/// crossover filters: it takes the tracks that `split_mixer` leaves to
/// one output channel per speaker.
pub fn combine_inputs(
    speaker_counts: &SpeakerCounts,
    split_mixer: &Mixer,
    output_channel_mapping: &NameMap<OutputChannelEntry>,
) -> (mixer: Mixer)
    requires
        speaker_counts.speakers_exclude_sub + speaker_counts.output_subwoofers <= usize::MAX,
        output_channel_mapping.wf(),
    ensures
        mixer@ == combine_mixer(
            split_mixer.channels.num_out_channel,
            (speaker_counts.speakers_exclude_sub + speaker_counts.output_subwoofers) as usize,
            output_channel_mapping.value_views(),
        ),
{
    let ghost entries = output_channel_mapping.value_views();
    let mut mapping: Vec<Mapping> = Vec::new();
    let mut i: usize = 0;
    while i < output_channel_mapping.len()
        invariant
            output_channel_mapping.wf(),
            entries == output_channel_mapping.value_views(),
            i <= entries.len(),
            mapping@.len() == i,
            forall|j: int| 0 <= j < i ==> (#[trigger] mapping@[j])@ == combine_entry_mapping(entries[j]),
        decreases entries.len() - i,
    {
        let entry = output_channel_mapping.value_at(i);
        let mut sources: Vec<Source> = Vec::new();
        let mut k: usize = 0;
        while k < entry.tracks.len()
            invariant
                k <= entry.tracks@.len(),
                sources@.len() == k,
                forall|j: int|
                    0 <= j < k ==> sources@[j] == (Source {
                        channel: entry.tracks@[j],
                        gain: 0,
                        inverted: false,
                    }),
            decreases entry.tracks.len() - k,
        {
            sources.push(Source { channel: entry.tracks[k], gain: 0, inverted: false });
            k += 1;
        }
        assert(sources@ =~= combine_entry_mapping(entry@).sources);
        mapping.push(Mapping { sources, dest: entry.dest_index });
        i += 1;
    }
    let channels = ChannelCount {
        num_in_channel: split_mixer.channels.num_out_channel,
        num_out_channel: speaker_counts.speakers_exclude_sub + speaker_counts.output_subwoofers,
    };
    let mixer = Mixer { channels, mapping };
    assert(mixer@.mapping =~= Seq::new(entries.len(), |i: int| combine_entry_mapping(entries[i])));
    mixer
}

/// The record of an input channel fits the layout: its input channel is
/// one of the split mixer's inputs, it owns two tracks if it has a
/// crossover and one if not, and its tracks are tracks of the layout.
pub open spec fn input_entry_fits<N>(speakers: Seq<Speaker<N>>, entry: InputChannelView) -> bool {
    &&& entry.origin_index < main_count(speakers) + input_subwoofer_count(speakers)
    &&& entry.tracks.len() == if entry.has_crossover {
        2nat
    } else {
        1nat
    }
    &&& forall|j: int| 0 <= j < entry.tracks.len() ==> entry.tracks[j] < track_count(speakers)
}

/// The record of an output channel fits the layout: its output channel
/// is the position of a speaker, and its tracks are tracks of the layout.
pub open spec fn output_entry_fits<N>(speakers: Seq<Speaker<N>>, entry: OutputChannelView) -> bool {
    &&& entry.dest_index < speakers.len()
    &&& forall|j: int| 0 <= j < entry.tracks.len() ==> entry.tracks[j] < track_count(speakers)
}

/// The record of every main speaker fits the layout.
pub proof fn lemma_main_input_entry_fits<N>(speakers: Seq<Speaker<N>>, i: int)
    requires
        tracks_fit(speakers),
        0 <= i < speakers.len(),
        !speakers[i].is_subwoofer,
    ensures
        input_entry_fits(speakers, main_input_entry(speakers, i)),
{
    lemma_tracks_before_bound(speakers, speakers.len() as int);
    lemma_tracks_before_monotonic(speakers, i + 1, speakers.len() as int);
    lemma_tracks_before_bound(speakers, i);
}

/// Every record of the main speakers fits the layout.
pub proof fn lemma_main_inputs_fit<N>(speakers: Seq<Speaker<N>>, n: int, name: Seq<char>)
    requires
        tracks_fit(speakers),
        0 <= n <= speakers.len(),
        main_inputs(speakers, n).dom().contains(name),
    ensures
        input_entry_fits(speakers, main_inputs(speakers, n)[name]),
    decreases n,
{
    if n > 0 {
        if !speakers[n - 1].is_subwoofer && speakers[n - 1].speaker@ == name {
            lemma_main_input_entry_fits(speakers, n - 1);
        } else {
            lemma_main_inputs_fit(speakers, n - 1, name);
        }
    }
}

/// Every record of an input channel fits the layout.
pub proof fn lemma_inputs_fit<N>(speakers: Seq<Speaker<N>>, k: int, name: Seq<char>)
    requires
        tracks_fit(speakers),
        0 <= k <= input_subwoofer_count(speakers),
        inputs_upto(speakers, k).dom().contains(name),
    ensures
        input_entry_fits(speakers, inputs_upto(speakers, k)[name]),
    decreases k,
{
    lemma_tracks_before_bound(speakers, speakers.len() as int);
    if k > 0 {
        if subwoofer_input_name_spec((k - 1) as nat) != name {
            lemma_inputs_fit(speakers, k - 1, name);
        }
    } else {
        lemma_main_inputs_fit(speakers, speakers.len() as int, name);
    }
}

/// Every low-frequency track is a track of a main speaker.
pub proof fn lemma_low_tracks_fit<N>(speakers: Seq<Speaker<N>>, n: int)
    requires
        tracks_fit(speakers),
        0 <= n <= speakers.len(),
    ensures
        forall|j: int|
            0 <= j < low_tracks(speakers, n).len() ==> low_tracks(speakers, n)[j]
                < tracks_before(speakers, n),
    decreases n,
{
    if n > 0 {
        lemma_low_tracks_fit(speakers, n - 1);
        lemma_tracks_before_bound(speakers, n);
        lemma_tracks_before_bound(speakers, n - 1);
        let before = low_tracks(speakers, n - 1);
        let all = low_tracks(speakers, n);
        assert forall|j: int| 0 <= j < all.len() implies all[j] < tracks_before(speakers, n) by {
            if j < before.len() {
                assert(all[j] == before[j]);
            }
        }
    }
}

/// Every track that feeds the subwoofers is a track of the layout.
pub proof fn lemma_subwoofer_feed_fits<N>(speakers: Seq<Speaker<N>>)
    requires
        tracks_fit(speakers),
    ensures
        forall|j: int|
            0 <= j < subwoofer_feed(speakers).len() ==> subwoofer_feed(speakers)[j] < track_count(
                speakers,
            ),
{
    lemma_low_tracks_fit(speakers, speakers.len() as int);
    lemma_tracks_before_bound(speakers, speakers.len() as int);
}

/// Every record of an output channel fits the layout.
pub proof fn lemma_outputs_fit<N>(speakers: Seq<Speaker<N>>, n: int, name: Seq<char>)
    requires
        tracks_fit(speakers),
        0 <= n <= speakers.len(),
        outputs_upto(speakers, n).dom().contains(name),
    ensures
        output_entry_fits(speakers, outputs_upto(speakers, n)[name]),
    decreases n,
{
    if n > 0 {
        if speakers[n - 1].speaker@ == name {
            lemma_subwoofer_feed_fits(speakers);
            lemma_tracks_before_bound(speakers, speakers.len() as int);
            lemma_tracks_before_monotonic(speakers, n, speakers.len() as int);
            lemma_tracks_before_bound(speakers, n - 1);
        } else {
            lemma_outputs_fit(speakers, n - 1, name);
        }
    }
}

/// The split mixer of records that fit the layout stays in range.
proof fn lemma_split_mapping_in_range(
    entries: Seq<InputChannelView>,
    n: int,
    inputs: usize,
    tracks: usize,
)
    requires
        0 <= n <= entries.len(),
        forall|i: int|
            #![trigger entries[i]]
            0 <= i < entries.len() ==> entries[i].origin_index < inputs && forall|j: int|
                0 <= j < entries[i].tracks.len() ==> entries[i].tracks[j] < tracks,
    ensures
        (MixerView {
            channels: ChannelCount { num_in_channel: inputs, num_out_channel: tracks },
            mapping: split_mapping(entries, n),
        }).in_range(),
    decreases n,
{
    if n > 0 {
        lemma_split_mapping_in_range(entries, n - 1, inputs, tracks);
        let before = split_mapping(entries, n - 1);
        let added = split_entry_mapping(entries[n - 1]);
        let all = split_mapping(entries, n);
        assert forall|i: int| 0 <= i < all.len() implies {
            &&& (#[trigger] all[i]).dest < tracks
            &&& forall|j: int|
                0 <= j < all[i].sources.len() ==> (#[trigger] all[i].sources[j]).channel < inputs
        } by {
            let earlier = MixerView {
                channels: ChannelCount { num_in_channel: inputs, num_out_channel: tracks },
                mapping: before,
            };
            assert(earlier.in_range());
            if i < before.len() {
                assert(all[i] == earlier.mapping[i]);
            } else {
                let k = i - before.len();
                assert(all[i] == added[k]);
                assert(added[k].dest == entries[n - 1].tracks[k]);
                assert(added[k].sources.len() == 1);
                assert(added[k].sources[0].channel == entries[n - 1].origin_index);
            }
        }
    }
}

/// In the split mixer of a layout every source is an input channel and
/// every destination a track; every input channel with a crossover owns
/// two tracks.
pub proof fn lemma_split_mixer_in_range<N>(
    speakers: Seq<Speaker<N>>,
    names: Seq<Seq<char>>,
    entries: Seq<InputChannelView>,
)
    requires
        tracks_fit(speakers),
        names_increasing(names),
        names.len() == entries.len(),
        lookup_map(names, entries) == input_table(speakers),
    ensures
        split_mixer(speakers, entries).in_range(),
        forall|i: int| 0 <= i < entries.len() ==> input_entry_fits(speakers, #[trigger] entries[i]),
{
    lemma_tracks_before_bound(speakers, speakers.len() as int);
    assert forall|i: int| 0 <= i < entries.len() implies input_entry_fits(
        speakers,
        #[trigger] entries[i],
    ) by {
        lemma_lookup_at(names, entries, i);
        lemma_inputs_fit(speakers, input_subwoofer_count(speakers) as int, names[i]);
    }
    lemma_split_mapping_in_range(
        entries,
        entries.len() as int,
        (main_count(speakers) + input_subwoofer_count(speakers)) as usize,
        track_count(speakers) as usize,
    );
}

/// In the combine mixer of a layout every source is a track and every
/// destination the output channel of a speaker.
pub proof fn lemma_combine_mixer_in_range<N>(
    speakers: Seq<Speaker<N>>,
    names: Seq<Seq<char>>,
    entries: Seq<OutputChannelView>,
)
    requires
        tracks_fit(speakers),
        names_increasing(names),
        names.len() == entries.len(),
        lookup_map(names, entries) == output_table(speakers),
    ensures
        combine_mixer(track_count(speakers) as usize, speakers.len() as usize, entries).in_range(),
        forall|i: int| 0 <= i < entries.len() ==> output_entry_fits(speakers, #[trigger] entries[i]),
{
    lemma_tracks_before_bound(speakers, speakers.len() as int);
    assert forall|i: int| 0 <= i < entries.len() implies output_entry_fits(
        speakers,
        #[trigger] entries[i],
    ) by {
        lemma_lookup_at(names, entries, i);
        lemma_outputs_fit(speakers, speakers.len() as int, names[i]);
    }
    let mixer = combine_mixer(track_count(speakers) as usize, speakers.len() as usize, entries);
    assert forall|i: int| 0 <= i < mixer.mapping.len() implies {
        &&& (#[trigger] mixer.mapping[i]).dest < mixer.channels.num_out_channel
        &&& forall|j: int|
            0 <= j < mixer.mapping[i].sources.len() ==> (#[trigger] mixer.mapping[i].sources[j]).channel
                < mixer.channels.num_in_channel
    } by {
        assert(output_entry_fits(speakers, entries[i]));
    }
}

/// The two mixers of a layout with a subwoofer meet: the combine mixer
/// takes as many channels as the split mixer leaves, and the split
/// mixer takes one channel for each main speaker and one subwoofer input.
pub proof fn lemma_channel_counts_conserved<N>(
    speakers: Seq<Speaker<N>>,
    inputs: Seq<InputChannelView>,
    outputs: Seq<OutputChannelView>,
)
    requires
        subwoofer_count(speakers) > 0,
    ensures
        combine_mixer(
            split_mixer(speakers, inputs).channels.num_out_channel,
            speakers.len() as usize,
            outputs,
        ).channels.num_in_channel == split_mixer(speakers, inputs).channels.num_out_channel,
        tracks_fit(speakers) ==> split_mixer(speakers, inputs).channels.num_in_channel
            == main_count(speakers) + 1,
{
    lemma_tracks_before_bound(speakers, speakers.len() as int);
}

/// The table of the output channels holds the record of every speaker
/// under its name, unless a later speaker goes by the same name.
pub proof fn lemma_output_table_holds<N>(speakers: Seq<Speaker<N>>, n: int, i: int)
    requires
        0 <= i < n <= speakers.len(),
        forall|j: int| i < j < n ==> (#[trigger] speakers[j]).speaker@ != speakers[i].speaker@,
    ensures
        outputs_upto(speakers, n).dom().contains(speakers[i].speaker@),
        outputs_upto(speakers, n)[speakers[i].speaker@] == output_entry(speakers, i),
    decreases n,
{
    if i < n - 1 {
        lemma_output_table_holds(speakers, n - 1, i);
    }
}

/// The records of the main speakers hold the record of every main
/// speaker under its name, unless a later speaker goes by the same name.
pub proof fn lemma_main_inputs_hold<N>(speakers: Seq<Speaker<N>>, n: int, i: int)
    requires
        0 <= i < n <= speakers.len(),
        !speakers[i].is_subwoofer,
        forall|j: int| i < j < n ==> (#[trigger] speakers[j]).speaker@ != speakers[i].speaker@,
    ensures
        main_inputs(speakers, n).dom().contains(speakers[i].speaker@),
        main_inputs(speakers, n)[speakers[i].speaker@] == main_input_entry(speakers, i),
    decreases n,
{
    if i < n - 1 {
        lemma_main_inputs_hold(speakers, n - 1, i);
    }
}

/// The table of the input channels holds the record of every subwoofer
/// input under its name.
pub proof fn lemma_input_table_holds_subwoofer_input<N>(speakers: Seq<Speaker<N>>, k: int, j: int)
    requires
        0 <= j < k <= input_subwoofer_count(speakers),
        forall|m: int|
            j < m < k ==> #[trigger] subwoofer_input_name_spec(m as nat)
                != subwoofer_input_name_spec(j as nat),
    ensures
        inputs_upto(speakers, k).dom().contains(subwoofer_input_name_spec(j as nat)),
        inputs_upto(speakers, k)[subwoofer_input_name_spec(j as nat)] == subwoofer_input_entry(
            speakers,
            j,
        ),
    decreases k,
{
    if j < k - 1 {
        lemma_input_table_holds_subwoofer_input(speakers, k - 1, j);
    }
}

/// The tables of a layout are finite: they can be walked in the order
/// of their names, and walking them gives back the tables.
pub proof fn lemma_tables_walk<N>(speakers: Seq<Speaker<N>>)
    ensures
        names_increasing(names_of(input_table(speakers))),
        names_of(input_table(speakers)).len() == values_of(input_table(speakers)).len(),
        lookup_map(names_of(input_table(speakers)), values_of(input_table(speakers)))
            == input_table(speakers),
        names_increasing(names_of(output_table(speakers))),
        names_of(output_table(speakers)).len() == values_of(output_table(speakers)).len(),
        lookup_map(names_of(output_table(speakers)), values_of(output_table(speakers)))
            == output_table(speakers),
{
    lemma_main_inputs_listed(speakers, speakers.len() as int);
    lemma_inputs_listed(speakers, input_subwoofer_count(speakers) as int);
    lemma_outputs_listed(speakers, speakers.len() as int);
    crate::name_map::lemma_listed_walk(input_table(speakers));
    crate::name_map::lemma_listed_walk(output_table(speakers));
}

proof fn lemma_main_inputs_listed<N>(speakers: Seq<Speaker<N>>, n: int)
    ensures
        crate::name_map::listed(main_inputs(speakers, n)),
    decreases n,
{
    if n > 0 {
        lemma_main_inputs_listed(speakers, n - 1);
        if !speakers[n - 1].is_subwoofer {
            crate::name_map::lemma_listed_insert(
                main_inputs(speakers, n - 1),
                speakers[n - 1].speaker@,
                main_input_entry(speakers, n - 1),
            );
        }
    } else {
        crate::name_map::lemma_listed_empty::<InputChannelView>();
    }
}

proof fn lemma_inputs_listed<N>(speakers: Seq<Speaker<N>>, k: int)
    ensures
        crate::name_map::listed(inputs_upto(speakers, k)),
    decreases k,
{
    if k > 0 {
        lemma_inputs_listed(speakers, k - 1);
        crate::name_map::lemma_listed_insert(
            inputs_upto(speakers, k - 1),
            subwoofer_input_name_spec((k - 1) as nat),
            subwoofer_input_entry(speakers, k - 1),
        );
    } else {
        lemma_main_inputs_listed(speakers, speakers.len() as int);
    }
}

proof fn lemma_outputs_listed<N>(speakers: Seq<Speaker<N>>, n: int)
    ensures
        crate::name_map::listed(outputs_upto(speakers, n)),
    decreases n,
{
    if n > 0 {
        lemma_outputs_listed(speakers, n - 1);
        crate::name_map::lemma_listed_insert(
            outputs_upto(speakers, n - 1),
            speakers[n - 1].speaker@,
            output_entry(speakers, n - 1),
        );
    } else {
        crate::name_map::lemma_listed_empty::<OutputChannelView>();
    }
}

} // verus!
