//! The ordered list of stages that the engine runs from top to bottom.

use crate::filters::{
    crossover_speaker_name, crossover_speaker_name_spec, crossover_subwoofer_name,
    crossover_subwoofer_name_spec, delay_filter_name, delay_filter_name_spec, gain_filter_name,
    gain_filter_name_spec, peq_filter_name, peq_filter_name_spec, volume_filter_name,
    volume_filter_name_spec, PeqBand,
};
use crate::mixers::{InputChannelEntry, InputChannelView, OutputChannelEntry, OutputChannelView};
use crate::name_map::{lemma_increasing_distinct, lemma_lookup_at, lookup_map, NameMap};
use crate::processor::Speaker;
use crate::text::names_increasing;
use vstd::prelude::*;

verus! {

/// The kind of a stage, as the engine's configuration names it.
#[derive(Clone, Copy, Debug, PartialEq, Eq, Structural)]
pub enum PipelineType {
    Filter,
    Mixer,
}

/// A stage that applies the named filters, in their order, to one channel.
#[derive(Clone, Debug, PartialEq, Eq)]
pub struct PipelineFilter {
    pub pipeline_type: PipelineType,
    pub channel: usize,
    /// The names under which the filters are defined.
    pub names: Vec<String>,
}

/// A stage that applies the named mixer.
#[derive(Clone, Debug, PartialEq, Eq)]
pub struct PipelineMixer {
    pub pipeline_type: PipelineType,
    pub name: String,
}

/// A stage of the pipeline.
#[derive(Clone, Debug, PartialEq, Eq)]
pub enum Pipeline {
    Filter(PipelineFilter),
    Mixer(PipelineMixer),
}

/// What a [`PipelineFilter`] holds.
pub struct PipelineFilterView {
    pub pipeline_type: PipelineType,
    pub channel: usize,
    pub names: Seq<Seq<char>>,
}

/// What a [`PipelineMixer`] holds.
pub struct PipelineMixerView {
    pub pipeline_type: PipelineType,
    pub name: Seq<char>,
}

/// What a [`Pipeline`] stage holds.
pub enum PipelineView {
    Filter(PipelineFilterView),
    Mixer(PipelineMixerView),
}

/// The names that a list of strings holds.
pub open spec fn name_views(names: Seq<String>) -> Seq<Seq<char>> {
    Seq::new(names.len(), |i: int| names[i]@)
}

impl View for PipelineFilter {
    type V = PipelineFilterView;

    open spec fn view(&self) -> PipelineFilterView {
        PipelineFilterView {
            pipeline_type: self.pipeline_type,
            channel: self.channel,
            names: name_views(self.names@),
        }
    }
}

impl View for PipelineMixer {
    type V = PipelineMixerView;

    open spec fn view(&self) -> PipelineMixerView {
        PipelineMixerView { pipeline_type: self.pipeline_type, name: self.name@ }
    }
}

impl View for Pipeline {
    type V = PipelineView;

    open spec fn view(&self) -> PipelineView {
        match self {
            Pipeline::Filter(f) => PipelineView::Filter(f@),
            Pipeline::Mixer(m) => PipelineView::Mixer(m@),
        }
    }
}

/// The stages that a list of stages holds.
pub open spec fn stage_views(stages: Seq<Pipeline>) -> Seq<PipelineView> {
    Seq::new(stages.len(), |i: int| stages[i]@)
}

/// The stage that applies the filters `names` to `channel`.
pub open spec fn filter_stage(channel: usize, names: Seq<Seq<char>>) -> PipelineView {
    PipelineView::Filter(
        PipelineFilterView { pipeline_type: PipelineType::Filter, channel, names },
    )
}

/// The stage that applies the mixer `name`.
pub open spec fn mixer_stage(name: Seq<char>) -> PipelineView {
    PipelineView::Mixer(PipelineMixerView { pipeline_type: PipelineType::Mixer, name })
}

/// The bands that a table of bands holds for a speaker: none for a
/// speaker that the table does not name.
pub open spec fn bands_of<N>(peq: Map<Seq<char>, Seq<PeqBand<N>>>, name: Seq<char>) -> Seq<
    PeqBand<N>,
> {
    if peq.dom().contains(name) {
        peq[name]
    } else {
        Seq::empty()
    }
}

/// The filters of a speaker in the order in which they are applied: its
/// equalizer bands, its delay, its gain and the shared volume filter.
pub open spec fn speaker_chain<N>(name: Seq<char>, bands: Seq<PeqBand<N>>) -> Seq<Seq<char>> {
    Seq::new(bands.len(), |k: int| peq_filter_name_spec(name, bands[k].index as nat)) + seq![
        delay_filter_name_spec(name),
        gain_filter_name_spec(name),
        volume_filter_name_spec(),
    ]
}

/// The stage that applies the filters of the speaker `name` to `channel`.
pub open spec fn speaker_stage<N>(
    name: Seq<char>,
    channel: usize,
    peq: Map<Seq<char>, Seq<PeqBand<N>>>,
) -> PipelineView {
    filter_stage(channel, speaker_chain(name, bands_of(peq, name)))
}

/// One stage for each output channel, in the order of `names`.
pub open spec fn per_speaker_pipeline<N>(
    names: Seq<Seq<char>>,
    outputs: Seq<OutputChannelView>,
    peq: Map<Seq<char>, Seq<PeqBand<N>>>,
) -> Seq<PipelineView> {
    Seq::new(names.len(), |i: int| speaker_stage(names[i], outputs[i].dest_index, peq))
}

/// One stage for each speaker, in the order of the speakers; the channel
/// of a speaker is its position.
pub open spec fn per_speaker_pipeline_no_mixer<N>(
    speakers: Seq<Speaker<N>>,
    peq: Map<Seq<char>, Seq<PeqBand<N>>>,
) -> Seq<PipelineView> {
    Seq::new(speakers.len(), |i: int| speaker_stage(speakers[i].speaker@, i as usize, peq))
}

/// The crossover stages of the input channel `name`: none unless it has a
/// crossover; else the highpass on its first track and the lowpass on its
/// second.
pub open spec fn crossover_stages(name: Seq<char>, entry: InputChannelView) -> Seq<PipelineView> {
    if entry.has_crossover {
        seq![
            filter_stage(entry.tracks[0], seq![crossover_speaker_name_spec(name)]),
            filter_stage(entry.tracks[1], seq![crossover_subwoofer_name_spec(name)]),
        ]
    } else {
        Seq::empty()
    }
}

/// The crossover stages of the first `n` input channels.
pub open spec fn crossover_stages_upto(
    names: Seq<Seq<char>>,
    entries: Seq<InputChannelView>,
    n: int,
) -> Seq<PipelineView>
    decreases n,
{
    if n <= 0 {
        Seq::empty()
    } else {
        crossover_stages_upto(names, entries, n - 1) + crossover_stages(names[n - 1], entries[n - 1])
    }
}

/// The split mixer, the crossover stages of all input channels in the
/// order of `names`, and the combine mixer.
pub open spec fn crossover_pipeline(
    split_mixer_name: Seq<char>,
    combine_mixer_name: Seq<char>,
    names: Seq<Seq<char>>,
    entries: Seq<InputChannelView>,
) -> Seq<PipelineView> {
    seq![mixer_stage(split_mixer_name)] + crossover_stages_upto(
        names,
        entries,
        names.len() as int,
    ) + seq![mixer_stage(combine_mixer_name)]
}

/// An input channel with a crossover owns a high and a low track.
pub open spec fn crossovers_have_tracks(entries: Seq<InputChannelView>) -> bool {
    forall|i: int|
        0 <= i < entries.len() && (#[trigger] entries[i]).has_crossover ==> entries[i].tracks.len()
            >= 2
}

/// The number of input channels with a crossover among the first `n`.
pub open spec fn crossover_count(entries: Seq<InputChannelView>, n: int) -> nat
    decreases n,
{
    if n <= 0 {
        0
    } else if entries[n - 1].has_crossover {
        crossover_count(entries, n - 1) + 1
    } else {
        crossover_count(entries, n - 1)
    }
}

/// There are two crossover stages for every input channel with a crossover.
pub proof fn lemma_crossover_stage_count(
    names: Seq<Seq<char>>,
    entries: Seq<InputChannelView>,
    n: int,
)
    ensures
        crossover_stages_upto(names, entries, n).len() == 2 * crossover_count(entries, n),
    decreases n,
{
    if n > 0 {
        lemma_crossover_stage_count(names, entries, n - 1);
    }
}

/// The names of the input channels with a crossover.
pub open spec fn crossover_names(inputs: Map<Seq<char>, InputChannelView>) -> Set<Seq<char>> {
    Set::new(|k: Seq<char>| inputs.dom().contains(k) && inputs[k].has_crossover)
}

/// `k` is the name of one of the first `n` input channels, and that
/// channel has a crossover.
pub open spec fn crossover_named_before(
    names: Seq<Seq<char>>,
    entries: Seq<InputChannelView>,
    n: int,
    k: Seq<char>,
) -> bool {
    exists|i: int| 0 <= i < n && #[trigger] names[i] == k && entries[i].has_crossover
}

/// Among the first `n` input channels there are as many with a
/// crossover as there are names of such channels.
pub proof fn lemma_crossover_count_walk(
    names: Seq<Seq<char>>,
    entries: Seq<InputChannelView>,
    n: int,
)
    requires
        names_increasing(names),
        names.len() == entries.len(),
        0 <= n <= names.len(),
    ensures
        Set::new(|k: Seq<char>| crossover_named_before(names, entries, n, k)).finite(),
        Set::new(|k: Seq<char>| crossover_named_before(names, entries, n, k)).len()
            == crossover_count(entries, n),
    decreases n,
{
    let now = Set::new(|k: Seq<char>| crossover_named_before(names, entries, n, k));
    if n == 0 {
        assert(now =~= Set::<Seq<char>>::empty());
    } else {
        lemma_crossover_count_walk(names, entries, n - 1);
        let before = Set::new(|k: Seq<char>| crossover_named_before(names, entries, n - 1, k));
        let name = names[n - 1];
        assert forall|k: Seq<char>| crossover_named_before(names, entries, n - 1, k) implies k
            != name && crossover_named_before(names, entries, n, k) by {
            let i = choose|i: int| 0 <= i < n - 1 && #[trigger] names[i] == k && entries[i].has_crossover;
            if k == name {
                lemma_increasing_distinct(names, i, n - 1);
            }
            assert(0 <= i < n && names[i] == k && entries[i].has_crossover);
        }
        assert forall|k: Seq<char>|
            crossover_named_before(names, entries, n, k) && !crossover_named_before(
                names,
                entries,
                n - 1,
                k,
            ) implies k == name && entries[n - 1].has_crossover by {
            let i = choose|i: int| 0 <= i < n && #[trigger] names[i] == k && entries[i].has_crossover;
            if i < n - 1 {
                assert(0 <= i < n - 1 && names[i] == k && entries[i].has_crossover);
            }
        }
        if entries[n - 1].has_crossover {
            assert(0 <= n - 1 < n && names[n - 1] == name && entries[n - 1].has_crossover);
            assert(crossover_named_before(names, entries, n, name));
            assert(now =~= before.insert(name));
        } else {
            assert(now =~= before);
        }
    }
}

/// A table of input channels holds as many names with a crossover as
/// its walk meets channels with a crossover.
pub proof fn lemma_crossover_count_of_table(names: Seq<Seq<char>>, entries: Seq<InputChannelView>)
    requires
        names_increasing(names),
        names.len() == entries.len(),
    ensures
        crossover_names(lookup_map(names, entries)).finite(),
        crossover_names(lookup_map(names, entries)).len() == crossover_count(
            entries,
            entries.len() as int,
        ),
{
    let n = names.len() as int;
    lemma_crossover_count_walk(names, entries, n);
    let walked = Set::new(|k: Seq<char>| crossover_named_before(names, entries, n, k));
    let table = lookup_map(names, entries);
    assert forall|k: Seq<char>| walked.contains(k) <==> crossover_names(table).contains(k) by {
        if crossover_named_before(names, entries, n, k) {
            let i = choose|i: int| 0 <= i < n && #[trigger] names[i] == k && entries[i].has_crossover;
            lemma_lookup_at(names, entries, i);
        }
        if table.dom().contains(k) && table[k].has_crossover {
            let i = names.index_of(k);
            lemma_lookup_at(names, entries, i);
            assert(0 <= i < n && names[i] == k && entries[i].has_crossover);
        }
    }
    assert(walked =~= crossover_names(table));
}

/// The filters of one speaker, in the order in which they are applied.
fn speaker_filter_names<N: Copy>(name: &str, peq_filters: &NameMap<Vec<PeqBand<N>>>) -> (names: Vec<
    String,
>)
    requires
        peq_filters.wf(),
    ensures
        name_views(names@) == speaker_chain(name@, bands_of(peq_filters@, name@)),
{
    let mut names: Vec<String> = Vec::new();
    let ghost bands = bands_of(peq_filters@, name@);
    match peq_filters.get(name) {
        Some(speaker_bands) => {
            let mut k: usize = 0;
            while k < speaker_bands.len()
                invariant
                    speaker_bands@ == bands,
                    k <= bands.len(),
                    names@.len() == k,
                    forall|j: int|
                        0 <= j < k ==> (#[trigger] names@[j])@ == peq_filter_name_spec(
                            name@,
                            bands[j].index as nat,
                        ),
                decreases speaker_bands.len() - k,
            {
                let band = speaker_bands[k];
                names.push(peq_filter_name(name, band.index));
                k += 1;
            }
        },
        None => {},
    }
    names.push(delay_filter_name(name));
    names.push(gain_filter_name(name));
    names.push(volume_filter_name());
    assert(name_views(names@) =~= speaker_chain(name@, bands));
    names
}

/// The stages that follow the mixers of a layout without subwoofers
/// would follow: one for each speaker, in the order of the speakers,
/// which applies the speaker's filters to the channel at the speaker's
/// position.
pub fn create_per_speaker_pipeline_no_mixer<N: Copy>(
    speakers: &[Speaker<N>],
    peq_filters: &NameMap<Vec<PeqBand<N>>>,
) -> (pipeline: Vec<Pipeline>)
    requires
        peq_filters.wf(),
    ensures
        stage_views(pipeline@) == per_speaker_pipeline_no_mixer(speakers@, peq_filters@),
{
    let mut pipeline: Vec<Pipeline> = Vec::new();
    let mut i: usize = 0;
    while i < speakers.len()
        invariant
            peq_filters.wf(),
            i <= speakers@.len(),
            pipeline@.len() == i,
            forall|j: int|
                0 <= j < i ==> (#[trigger] pipeline@[j])@ == speaker_stage(
                    speakers@[j].speaker@,
                    j as usize,
                    peq_filters@,
                ),
        decreases speakers.len() - i,
    {
        let names = speaker_filter_names(speakers[i].speaker.as_str(), peq_filters);
        pipeline.push(
            Pipeline::Filter(
                PipelineFilter { pipeline_type: PipelineType::Filter, channel: i, names },
            ),
        );
        i += 1;
    }
    assert(stage_views(pipeline@) =~= per_speaker_pipeline_no_mixer(speakers@, peq_filters@));
    pipeline
}

/// The stages that follow the combine mixer: one for each output
/// channel, in the order of the speakers' names, which applies the
/// speaker's filters to its output channel.
pub fn create_per_speaker_pipeline<N: Copy>(
    output_channel_mapping: &NameMap<OutputChannelEntry>,
    peq_filters: &NameMap<Vec<PeqBand<N>>>,
) -> (pipeline: Vec<Pipeline>)
    requires
        output_channel_mapping.wf(),
        peq_filters.wf(),
    ensures
        stage_views(pipeline@) == per_speaker_pipeline(
            output_channel_mapping.names(),
            output_channel_mapping.value_views(),
            peq_filters@,
        ),
{
    let ghost names = output_channel_mapping.names();
    let ghost outputs = output_channel_mapping.value_views();
    let mut pipeline: Vec<Pipeline> = Vec::new();
    let mut i: usize = 0;
    while i < output_channel_mapping.len()
        invariant
            output_channel_mapping.wf(),
            peq_filters.wf(),
            names == output_channel_mapping.names(),
            outputs == output_channel_mapping.value_views(),
            i <= names.len(),
            pipeline@.len() == i,
            forall|j: int|
                0 <= j < i ==> (#[trigger] pipeline@[j])@ == speaker_stage(
                    names[j],
                    outputs[j].dest_index,
                    peq_filters@,
                ),
        decreases names.len() - i,
    {
        let name = output_channel_mapping.name_at(i);
        let entry = output_channel_mapping.value_at(i);
        let filter_names = speaker_filter_names(name.as_str(), peq_filters);
        pipeline.push(
            Pipeline::Filter(
                PipelineFilter {
                    pipeline_type: PipelineType::Filter,
                    channel: entry.dest_index,
                    names: filter_names,
                },
            ),
        );
        i += 1;
    }
    assert(stage_views(pipeline@) =~= per_speaker_pipeline(names, outputs, peq_filters@));
    pipeline
}

/// The stages from the split mixer to the combine mixer: between the
/// two, for every input channel with a crossover, in the order of the
/// names, the highpass on its first track and the lowpass on its second.
pub fn create_crossover_pipeline(
    split_mixer_name: String,
    combine_mixer_name: String,
    input_channel_mapping: &NameMap<InputChannelEntry>,
) -> (pipeline: Vec<Pipeline>)
    requires
        input_channel_mapping.wf(),
        crossovers_have_tracks(input_channel_mapping.value_views()),
    ensures
        stage_views(pipeline@) == crossover_pipeline(
            split_mixer_name@,
            combine_mixer_name@,
            input_channel_mapping.names(),
            input_channel_mapping.value_views(),
        ),
{
    let ghost names = input_channel_mapping.names();
    let ghost entries = input_channel_mapping.value_views();
    let mut pipeline: Vec<Pipeline> = Vec::new();
    pipeline.push(
        Pipeline::Mixer(PipelineMixer { pipeline_type: PipelineType::Mixer, name: split_mixer_name }),
    );
    assert(stage_views(pipeline@) =~= seq![mixer_stage(split_mixer_name@)]
        + crossover_stages_upto(names, entries, 0));
    let mut i: usize = 0;
    while i < input_channel_mapping.len()
        invariant
            input_channel_mapping.wf(),
            crossovers_have_tracks(entries),
            names == input_channel_mapping.names(),
            entries == input_channel_mapping.value_views(),
            i <= names.len(),
            stage_views(pipeline@) == seq![mixer_stage(split_mixer_name@)] + crossover_stages_upto(
                names,
                entries,
                i as int,
            ),
        decreases names.len() - i,
    {
        let name = input_channel_mapping.name_at(i);
        let entry = input_channel_mapping.value_at(i);
        let ghost before = stage_views(pipeline@);
        if entry.has_crossover {
            assert(entries[i as int].has_crossover);
            let mut high: Vec<String> = Vec::new();
            high.push(crossover_speaker_name(name.as_str()));
            let mut low: Vec<String> = Vec::new();
            low.push(crossover_subwoofer_name(name.as_str()));
            proof {
                assert(name_views(high@) =~= seq![crossover_speaker_name_spec(name@)]);
                assert(name_views(low@) =~= seq![crossover_subwoofer_name_spec(name@)]);
            }
            pipeline.push(
                Pipeline::Filter(
                    PipelineFilter {
                        pipeline_type: PipelineType::Filter,
                        channel: entry.tracks[0],
                        names: high,
                    },
                ),
            );
            pipeline.push(
                Pipeline::Filter(
                    PipelineFilter {
                        pipeline_type: PipelineType::Filter,
                        channel: entry.tracks[1],
                        names: low,
                    },
                ),
            );
        }
        proof {
            assert(stage_views(pipeline@) =~= before + crossover_stages(
                names[i as int],
                entries[i as int],
            ));
            assert(stage_views(pipeline@) =~= seq![mixer_stage(split_mixer_name@)]
                + crossover_stages_upto(names, entries, i + 1));
        }
        i += 1;
    }
    let ghost before = stage_views(pipeline@);
    pipeline.push(
        Pipeline::Mixer(
            PipelineMixer { pipeline_type: PipelineType::Mixer, name: combine_mixer_name },
        ),
    );
    assert(stage_views(pipeline@) =~= before + seq![mixer_stage(combine_mixer_name@)]);
    pipeline
}

} // verus!
