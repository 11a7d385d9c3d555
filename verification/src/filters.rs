//! The filter definitions of a routing graph and the names they go by.
//!
//! Every definition is stored under a name that is made from the name of
//! the speaker it belongs to; the bands of the parametric equalizer also
//! carry their position in the list of all bands, so that no two
//! definitions share a name.

use crate::name_map::NameMap;
use crate::processor::{is_split, names_distinct, split_speakers_before, Filter, Speaker};
use crate::text::{append_decimal, decimal};
use vstd::prelude::*;
use vstd::string::*;

verus! {

/// The order of the crossover filters: 4 gives 24 dB per octave.
pub const CROSSOVER_ORDER: i32 = 4;

/// The time in milliseconds over which a change of volume is spread.
pub const VOLUME_RAMP_TIME: i32 = 200;

/// The name of the delay filter of a speaker.
pub open spec fn delay_filter_name_spec(speaker_name: Seq<char>) -> Seq<char> {
    "delay_"@ + speaker_name
}

/// The name of the gain filter of a speaker.
pub open spec fn gain_filter_name_spec(speaker_name: Seq<char>) -> Seq<char> {
    "gain_"@ + speaker_name
}

/// The name of the equalizer band of a speaker at `peq_index`.
pub open spec fn peq_filter_name_spec(speaker_name: Seq<char>, peq_index: nat) -> Seq<char> {
    "peq_"@ + speaker_name + "_"@ + decimal(peq_index)
}

/// The name of the volume filter.
pub open spec fn volume_filter_name_spec() -> Seq<char> {
    "volume"@
}

/// The name of the highpass filter in front of a main speaker.
pub open spec fn crossover_speaker_name_spec(speaker_name: Seq<char>) -> Seq<char> {
    "crossover_speaker_"@ + speaker_name
}

/// The name of the lowpass filter between a main speaker and the subwoofers.
pub open spec fn crossover_subwoofer_name_spec(speaker_name: Seq<char>) -> Seq<char> {
    "crossover_subwoofer"@ + speaker_name
}

/// The name of the delay filter of a speaker.
pub fn delay_filter_name(speaker_name: &str) -> (name: String)
    ensures
        name@ == delay_filter_name_spec(speaker_name@),
{
    let mut name = String::from_str("delay_");
    name.append(speaker_name);
    name
}

/// The name of the gain filter of a speaker.
pub fn gain_filter_name(speaker_name: &str) -> (name: String)
    ensures
        name@ == gain_filter_name_spec(speaker_name@),
{
    let mut name = String::from_str("gain_");
    name.append(speaker_name);
    name
}

/// The name of the equalizer band of a speaker that stands at
/// `peq_index` in the list of all bands.
pub fn peq_filter_name(speaker_name: &str, peq_index: usize) -> (name: String)
    ensures
        name@ == peq_filter_name_spec(speaker_name@, peq_index as nat),
{
    let mut name = String::from_str("peq_");
    name.append(speaker_name);
    name.append("_");
    append_decimal(&mut name, peq_index);
    name
}

/// The name of the volume filter, which all speakers share.
pub fn volume_filter_name() -> (name: String)
    ensures
        name@ == volume_filter_name_spec(),
{
    String::from_str("volume")
}

/// The name of the highpass filter in front of a main speaker.
pub fn crossover_speaker_name(speaker_name: &str) -> (name: String)
    ensures
        name@ == crossover_speaker_name_spec(speaker_name@),
{
    let mut name = String::from_str("crossover_speaker_");
    name.append(speaker_name);
    name
}

/// The name of the lowpass filter on the way from a main speaker to the
/// subwoofers.
pub fn crossover_subwoofer_name(speaker_name: &str) -> (name: String)
    ensures
        name@ == crossover_subwoofer_name_spec(speaker_name@),
{
    let mut name = String::from_str("crossover_subwoofer");
    name.append(speaker_name);
    name
}

/// The kind of a filter, as the engine's configuration names it.
#[derive(Clone, Copy, Debug, PartialEq, Eq, Structural)]
pub enum FilterType {
    Delay,
    Biquad,
    BiquadCombo,
    Gain,
    Volume,
}

/// The unit of a delay.
#[derive(Clone, Copy, Debug, PartialEq, Eq, Structural)]
pub enum DelayUnit {
    Ms,
}

/// The two halves of a crossover.
#[derive(Clone, Copy, Debug, PartialEq, Eq, Structural)]
pub enum CrossoverType {
    ButterworthHighpass,
    ButterworthLowpass,
}

/// The shape of an equalizer band.
#[derive(Clone, Copy, Debug, PartialEq, Eq, Structural)]
pub enum PeakingType {
    Peaking,
}

/// The parameters of an equalizer band.
#[derive(Clone, Copy, Debug, PartialEq)]
pub struct PeakingParameters<N> {
    pub freq: i32,
    pub q: N,
    pub gain: N,
    pub peaking_type: PeakingType,
}

/// The parameters of the volume filter.
#[derive(Clone, Copy, Debug, PartialEq, Eq, Structural)]
pub struct VolumeParameters {
    pub ramp_time: i32,
}

/// The parameters of a highpass or lowpass.
#[derive(Clone, Copy, Debug, PartialEq, Eq, Structural)]
pub struct CrossoverParameters {
    pub freq: i32,
    pub order: i32,
    pub crossover_type: CrossoverType,
}

/// The parameters of a delay.
#[derive(Clone, Copy, Debug, PartialEq)]
pub struct DelayParameters<N> {
    pub delay: N,
    pub unit: DelayUnit,
}

/// The parameters of a gain.
#[derive(Clone, Copy, Debug, PartialEq)]
pub struct GainParameters<N> {
    pub gain: N,
    pub inverted: bool,
}

/// One band of a parametric equalizer.
#[derive(Clone, Copy, Debug, PartialEq)]
pub struct PeakingFilter<N> {
    pub filter_type: FilterType,
    pub parameters: PeakingParameters<N>,
}

/// A delay.
#[derive(Clone, Copy, Debug, PartialEq)]
pub struct DelayFilter<N> {
    pub filter_type: FilterType,
    pub parameters: DelayParameters<N>,
}

/// A volume control that ramps to a new volume.
#[derive(Clone, Copy, Debug, PartialEq, Eq, Structural)]
pub struct VolumeFilter {
    pub filter_type: FilterType,
    pub parameters: VolumeParameters,
}

/// A fixed gain.
#[derive(Clone, Copy, Debug, PartialEq)]
pub struct GainFilter<N> {
    pub filter_type: FilterType,
    pub parameters: GainParameters<N>,
}

/// Half of a crossover: a highpass or a lowpass.
#[derive(Clone, Copy, Debug, PartialEq, Eq, Structural)]
pub struct CrossoverFilter {
    pub filter_type: FilterType,
    pub parameters: CrossoverParameters,
}

/// A filter definition.
#[derive(Clone, Copy, Debug, PartialEq)]
pub enum SpeakerAdjust<N> {
    DelayFilter(DelayFilter<N>),
    PeakingFilter(PeakingFilter<N>),
    CrossoverFilter(CrossoverFilter),
    GainFilter(GainFilter<N>),
    VolumeFilter(VolumeFilter),
}

impl<N> View for SpeakerAdjust<N> {
    type V = SpeakerAdjust<N>;

    open spec fn view(&self) -> SpeakerAdjust<N> {
        *self
    }
}

impl<N> SpeakerAdjust<N> {
    /// The kind of the filter, as it was recorded with its parameters.
    pub open spec fn filter_type_spec(self) -> FilterType {
        match self {
            SpeakerAdjust::DelayFilter(f) => f.filter_type,
            SpeakerAdjust::PeakingFilter(f) => f.filter_type,
            SpeakerAdjust::CrossoverFilter(f) => f.filter_type,
            SpeakerAdjust::GainFilter(f) => f.filter_type,
            SpeakerAdjust::VolumeFilter(f) => f.filter_type,
        }
    }

    /// The recorded kind is the kind that the engine expects of such a filter.
    pub open spec fn well_typed(self) -> bool {
        self.filter_type_spec() == match self {
            SpeakerAdjust::DelayFilter(_) => FilterType::Delay,
            SpeakerAdjust::PeakingFilter(_) => FilterType::Biquad,
            SpeakerAdjust::CrossoverFilter(_) => FilterType::BiquadCombo,
            SpeakerAdjust::GainFilter(_) => FilterType::Gain,
            SpeakerAdjust::VolumeFilter(_) => FilterType::Volume,
        }
    }

    /// The kind of the filter.
    pub fn filter_type(&self) -> (kind: FilterType)
        ensures
            kind == self.filter_type_spec(),
    {
        match self {
            SpeakerAdjust::DelayFilter(f) => f.filter_type,
            SpeakerAdjust::PeakingFilter(f) => f.filter_type,
            SpeakerAdjust::CrossoverFilter(f) => f.filter_type,
            SpeakerAdjust::GainFilter(f) => f.filter_type,
            SpeakerAdjust::VolumeFilter(f) => f.filter_type,
        }
    }
}

/// A Butterworth highpass of the crossover order at `freq` Hz.
pub open spec fn highpass_filter<N>(freq: i32) -> SpeakerAdjust<N> {
    SpeakerAdjust::CrossoverFilter(
        CrossoverFilter {
            filter_type: FilterType::BiquadCombo,
            parameters: CrossoverParameters {
                freq,
                order: CROSSOVER_ORDER,
                crossover_type: CrossoverType::ButterworthHighpass,
            },
        },
    )
}

/// A Butterworth lowpass of the crossover order at `freq` Hz.
pub open spec fn lowpass_filter<N>(freq: i32) -> SpeakerAdjust<N> {
    SpeakerAdjust::CrossoverFilter(
        CrossoverFilter {
            filter_type: FilterType::BiquadCombo,
            parameters: CrossoverParameters {
                freq,
                order: CROSSOVER_ORDER,
                crossover_type: CrossoverType::ButterworthLowpass,
            },
        },
    )
}

/// A delay of `delay` milliseconds.
pub open spec fn delay_filter<N>(delay: N) -> SpeakerAdjust<N> {
    SpeakerAdjust::DelayFilter(
        DelayFilter {
            filter_type: FilterType::Delay,
            parameters: DelayParameters { delay, unit: DelayUnit::Ms },
        },
    )
}

/// A gain of `gain` dB that does not invert.
pub open spec fn gain_filter<N>(gain: N) -> SpeakerAdjust<N> {
    SpeakerAdjust::GainFilter(
        GainFilter { filter_type: FilterType::Gain, parameters: GainParameters { gain, inverted: false } },
    )
}

/// The volume filter.
pub open spec fn volume_filter<N>() -> SpeakerAdjust<N> {
    SpeakerAdjust::VolumeFilter(
        VolumeFilter {
            filter_type: FilterType::Volume,
            parameters: VolumeParameters { ramp_time: VOLUME_RAMP_TIME },
        },
    )
}

/// The peaking filter of an equalizer band.
pub open spec fn peaking_filter<N>(band: PeqBand<N>) -> SpeakerAdjust<N> {
    SpeakerAdjust::PeakingFilter(
        PeakingFilter {
            filter_type: FilterType::Biquad,
            parameters: PeakingParameters {
                freq: band.freq,
                q: band.q,
                gain: band.gain,
                peaking_type: PeakingType::Peaking,
            },
        },
    )
}

/// The crossover filters of the first `n` speakers, by name: a highpass
/// and a lowpass for every main speaker that has a crossover frequency.
pub open spec fn crossover_filters<N>(speakers: Seq<Speaker<N>>, n: int) -> Map<
    Seq<char>,
    SpeakerAdjust<N>,
>
    decreases n,
{
    if n <= 0 {
        Map::empty()
    } else if !speakers[n - 1].is_subwoofer && speakers[n - 1].crossover is Some {
        crossover_filters(speakers, n - 1).insert(
            crossover_speaker_name_spec(speakers[n - 1].speaker@),
            highpass_filter(speakers[n - 1].crossover->0),
        ).insert(
            crossover_subwoofer_name_spec(speakers[n - 1].speaker@),
            lowpass_filter(speakers[n - 1].crossover->0),
        )
    } else {
        crossover_filters(speakers, n - 1)
    }
}

/// The name of a highpass is the name of no lowpass.
pub proof fn lemma_crossover_names_differ(a: Seq<char>, b: Seq<char>)
    ensures
        crossover_speaker_name_spec(a) != crossover_subwoofer_name_spec(b),
{
    reveal_strlit("crossover_speaker_");
    reveal_strlit("crossover_subwoofer");
    let high = crossover_speaker_name_spec(a);
    let low = crossover_subwoofer_name_spec(b);
    assert(high[11] == 'p');
    assert(low[11] == 'u');
}

/// Two speakers with the same highpass name, or the same lowpass name,
/// have the same name.
pub proof fn lemma_crossover_names_injective(a: Seq<char>, b: Seq<char>)
    ensures
        crossover_speaker_name_spec(a) == crossover_speaker_name_spec(b) ==> a == b,
        crossover_subwoofer_name_spec(a) == crossover_subwoofer_name_spec(b) ==> a == b,
{
    let high = "crossover_speaker_"@;
    let low = "crossover_subwoofer"@;
    assert((high + a).subrange(high.len() as int, (high + a).len() as int) =~= a);
    assert((high + b).subrange(high.len() as int, (high + b).len() as int) =~= b);
    assert((low + a).subrange(low.len() as int, (low + a).len() as int) =~= a);
    assert((low + b).subrange(low.len() as int, (low + b).len() as int) =~= b);
}

/// Every crossover filter is the highpass or the lowpass of a main
/// speaker with a crossover frequency.
pub proof fn lemma_crossover_filter_owner<N>(
    speakers: Seq<Speaker<N>>,
    n: int,
    name: Seq<char>,
) -> (i: int)
    requires
        0 <= n <= speakers.len(),
        crossover_filters(speakers, n).dom().contains(name),
    ensures
        0 <= i < n,
        is_split(speakers[i]),
        name == crossover_speaker_name_spec(speakers[i].speaker@) || name
            == crossover_subwoofer_name_spec(speakers[i].speaker@),
    decreases n,
{
    if is_split(speakers[n - 1]) && (name == crossover_speaker_name_spec(speakers[n - 1].speaker@)
        || name == crossover_subwoofer_name_spec(speakers[n - 1].speaker@)) {
        n - 1
    } else {
        lemma_crossover_filter_owner(speakers, n - 1, name)
    }
}

/// Every main speaker with a crossover frequency has its highpass and
/// its lowpass, at its frequency, unless a later speaker of the same
/// name has replaced them.
pub proof fn lemma_crossover_filters_of<N>(speakers: Seq<Speaker<N>>, n: int, i: int)
    requires
        0 <= i < n <= speakers.len(),
        is_split(speakers[i]),
        forall|j: int| i < j < n ==> (#[trigger] speakers[j]).speaker@ != speakers[i].speaker@,
    ensures
        crossover_filters(speakers, n).dom().contains(
            crossover_speaker_name_spec(speakers[i].speaker@),
        ),
        crossover_filters(speakers, n).dom().contains(
            crossover_subwoofer_name_spec(speakers[i].speaker@),
        ),
        crossover_filters(speakers, n)[crossover_speaker_name_spec(speakers[i].speaker@)]
            == highpass_filter::<N>(speakers[i].crossover->0),
        crossover_filters(speakers, n)[crossover_subwoofer_name_spec(speakers[i].speaker@)]
            == lowpass_filter::<N>(speakers[i].crossover->0),
    decreases n,
{
    let name = speakers[i].speaker@;
    lemma_crossover_names_differ(name, name);
    if i < n - 1 {
        lemma_crossover_filters_of(speakers, n - 1, i);
        let last = speakers[n - 1].speaker@;
        lemma_crossover_names_injective(name, last);
        lemma_crossover_names_differ(name, last);
        lemma_crossover_names_differ(last, name);
    }
}

/// Where no two speakers share a name, there are twice as many
/// crossover filters as main speakers with a crossover frequency.
pub proof fn lemma_crossover_filters_paired<N>(speakers: Seq<Speaker<N>>, n: int)
    requires
        names_distinct(speakers),
        0 <= n <= speakers.len(),
    ensures
        crossover_filters(speakers, n).dom().finite(),
        crossover_filters(speakers, n).dom().len() == 2 * split_speakers_before(speakers, n),
    decreases n,
{
    if n > 0 {
        lemma_crossover_filters_paired(speakers, n - 1);
        if is_split(speakers[n - 1]) {
            let before = crossover_filters(speakers, n - 1);
            let name = speakers[n - 1].speaker@;
            let high = crossover_speaker_name_spec(name);
            let low = crossover_subwoofer_name_spec(name);
            lemma_crossover_names_differ(name, name);
            if before.dom().contains(high) {
                let i = lemma_crossover_filter_owner(speakers, n - 1, high);
                lemma_crossover_names_injective(speakers[i].speaker@, name);
                lemma_crossover_names_differ(name, speakers[i].speaker@);
            }
            if before.dom().contains(low) {
                let i = lemma_crossover_filter_owner(speakers, n - 1, low);
                lemma_crossover_names_injective(speakers[i].speaker@, name);
                lemma_crossover_names_differ(speakers[i].speaker@, name);
            }
            let after = before.insert(high, highpass_filter::<N>(speakers[n - 1].crossover->0));
            assert(after.dom() =~= before.dom().insert(high));
            assert(crossover_filters(speakers, n).dom() =~= after.dom().insert(low));
        }
    }
}

/// Defines the crossover filters: for every main speaker with a
/// crossover frequency the highpass in front of the speaker and the
/// lowpass in front of the subwoofers.
pub fn create_crossover_filters<N>(speakers: &[Speaker<N>]) -> (filters: NameMap<SpeakerAdjust<N>>)
    ensures
        filters.wf(),
        filters@ == crossover_filters(speakers@, speakers@.len() as int),
{
    let mut filters: NameMap<SpeakerAdjust<N>> = NameMap::new();
    let mut i: usize = 0;
    while i < speakers.len()
        invariant
            i <= speakers@.len(),
            filters.wf(),
            filters@ == crossover_filters(speakers@, i as int),
        decreases speakers.len() - i,
    {
        let speaker = &speakers[i];
        if !speaker.is_subwoofer {
            match speaker.crossover {
                Some(freq) => {
                    filters.insert(
                        crossover_speaker_name(speaker.speaker.as_str()),
                        SpeakerAdjust::CrossoverFilter(
                            CrossoverFilter {
                                filter_type: FilterType::BiquadCombo,
                                parameters: CrossoverParameters {
                                    freq,
                                    order: CROSSOVER_ORDER,
                                    crossover_type: CrossoverType::ButterworthHighpass,
                                },
                            },
                        ),
                    );
                    filters.insert(
                        crossover_subwoofer_name(speaker.speaker.as_str()),
                        SpeakerAdjust::CrossoverFilter(
                            CrossoverFilter {
                                filter_type: FilterType::BiquadCombo,
                                parameters: CrossoverParameters {
                                    freq,
                                    order: CROSSOVER_ORDER,
                                    crossover_type: CrossoverType::ButterworthLowpass,
                                },
                            },
                        ),
                    );
                },
                None => {},
            }
        }
        i += 1;
    }
    filters
}

/// An equalizer band with its position in the list of all bands.
#[derive(Clone, Copy, Debug, PartialEq)]
pub struct PeqBand<N> {
    pub index: usize,
    pub freq: i32,
    pub gain: N,
    pub q: N,
}

/// The band at position `i` of `filters`.
pub open spec fn band_at<N>(filters: Seq<Filter<N>>, i: int) -> PeqBand<N> {
    PeqBand { index: i as usize, freq: filters[i].freq, gain: filters[i].gain, q: filters[i].q }
}

/// The bands among the first `n` of `filters` that belong to the speaker
/// `name`, in the order of `filters`.
pub open spec fn bands_for<N>(filters: Seq<Filter<N>>, name: Seq<char>, n: int) -> Seq<PeqBand<N>>
    decreases n,
{
    if n <= 0 {
        Seq::empty()
    } else if filters[n - 1].speaker@ == name {
        bands_for(filters, name, n - 1).push(band_at(filters, n - 1))
    } else {
        bands_for(filters, name, n - 1)
    }
}

/// The first `n` of `filters` name the speaker `name`.
pub open spec fn has_band<N>(filters: Seq<Filter<N>>, name: Seq<char>, n: int) -> bool {
    exists|i: int| 0 <= i < n && (#[trigger] filters[i]).speaker@ == name
}

/// The bands of the first `n` of `filters`, by the speakers they name.
pub open spec fn peq_table<N>(filters: Seq<Filter<N>>, n: int) -> Map<Seq<char>, Seq<PeqBand<N>>> {
    Map::new(|name: Seq<char>| has_band(filters, name, n), |name: Seq<char>| bands_for(filters, name, n))
}

/// A speaker that no band names has no bands.
pub proof fn lemma_bands_for_none<N>(filters: Seq<Filter<N>>, name: Seq<char>, n: int)
    requires
        !has_band(filters, name, n),
    ensures
        bands_for(filters, name, n) == Seq::<PeqBand<N>>::empty(),
    decreases n,
{
    if n > 0 {
        assert(filters[n - 1].speaker@ != name);
        assert forall|i: int| 0 <= i < n - 1 implies (#[trigger] filters[i]).speaker@ != name by {}
        lemma_bands_for_none(filters, name, n - 1);
    }
}

/// Groups the equalizer bands by the speakers they name. The bands of a
/// speaker keep the order of `filters`, and each carries its position
/// there.
pub fn compute_peq_filter<N: Copy>(filters: &[Filter<N>]) -> (table: NameMap<Vec<PeqBand<N>>>)
    ensures
        table.wf(),
        table@ == peq_table(filters@, filters@.len() as int),
{
    let mut table: NameMap<Vec<PeqBand<N>>> = NameMap::new();
    let mut i: usize = 0;
    proof {
        assert(table@ =~= peq_table(filters@, 0));
    }
    while i < filters.len()
        invariant
            i <= filters@.len(),
            table.wf(),
            table@ == peq_table(filters@, i as int),
        decreases filters.len() - i,
    {
        let filter = &filters[i];
        let band = PeqBand { index: i, freq: filter.freq, gain: filter.gain, q: filter.q };
        let ghost before = table@;
        let ghost name = filter.speaker@;
        let mut bands = match table.remove(filter.speaker.as_str()) {
            Some(bands) => bands,
            None => {
                proof {
                    lemma_bands_for_none(filters@, name, i as int);
                }
                Vec::new()
            },
        };
        assert(bands@ == bands_for(filters@, name, i as int));
        bands.push(band);
        table.insert(filter.speaker.clone(), bands);
        proof {
            let after = peq_table(filters@, i + 1);
            assert forall|k: Seq<char>| table@.dom().contains(k) <==> after.dom().contains(k) by {
                if has_band(filters@, k, i as int) {
                    let j = choose|j: int| 0 <= j < i && (#[trigger] filters@[j]).speaker@ == k;
                    assert(0 <= j < i + 1 && filters@[j].speaker@ == k);
                }
                if has_band(filters@, k, i + 1) && k != name {
                    let j = choose|j: int| 0 <= j < i + 1 && (#[trigger] filters@[j]).speaker@ == k;
                    assert(0 <= j < i && filters@[j].speaker@ == k);
                }
                if k == name {
                    assert(filters@[i as int].speaker@ == k);
                }
            }
            assert(table@ =~= after);
        }
        i += 1;
    }
    table
}

/// `filters` with the peaking filters of the first `m` of `bands`, which
/// belong to the speaker `name`.
pub open spec fn with_band_filters<N>(
    filters: Map<Seq<char>, SpeakerAdjust<N>>,
    name: Seq<char>,
    bands: Seq<PeqBand<N>>,
    m: int,
) -> Map<Seq<char>, SpeakerAdjust<N>>
    decreases m,
{
    if m <= 0 {
        filters
    } else {
        with_band_filters(filters, name, bands, m - 1).insert(
            peq_filter_name_spec(name, bands[m - 1].index as nat),
            peaking_filter(bands[m - 1]),
        )
    }
}

/// The peaking filters of the bands of the first `n` speakers of a table
/// of bands.
pub open spec fn peq_filters<N>(names: Seq<Seq<char>>, bands: Seq<Seq<PeqBand<N>>>, n: int) -> Map<
    Seq<char>,
    SpeakerAdjust<N>,
>
    decreases n,
{
    if n <= 0 {
        Map::empty()
    } else {
        with_band_filters(
            peq_filters(names, bands, n - 1),
            names[n - 1],
            bands[n - 1],
            bands[n - 1].len() as int,
        )
    }
}

/// `filters` with the delay filters of the first `n` speakers.
pub open spec fn with_delay_filters<N>(
    filters: Map<Seq<char>, SpeakerAdjust<N>>,
    speakers: Seq<Speaker<N>>,
    n: int,
) -> Map<Seq<char>, SpeakerAdjust<N>>
    decreases n,
{
    if n <= 0 {
        filters
    } else {
        with_delay_filters(filters, speakers, n - 1).insert(
            delay_filter_name_spec(speakers[n - 1].speaker@),
            delay_filter(speakers[n - 1].delay),
        )
    }
}

/// `filters` with the gain filters of the first `n` speakers.
pub open spec fn with_gain_filters<N>(
    filters: Map<Seq<char>, SpeakerAdjust<N>>,
    speakers: Seq<Speaker<N>>,
    n: int,
) -> Map<Seq<char>, SpeakerAdjust<N>>
    decreases n,
{
    if n <= 0 {
        filters
    } else {
        with_gain_filters(filters, speakers, n - 1).insert(
            gain_filter_name_spec(speakers[n - 1].speaker@),
            gain_filter(speakers[n - 1].gain),
        )
    }
}

/// `filters` with the volume filter, if there is a speaker to use it.
pub open spec fn with_volume_filter<N>(
    filters: Map<Seq<char>, SpeakerAdjust<N>>,
    speakers: Seq<Speaker<N>>,
) -> Map<Seq<char>, SpeakerAdjust<N>> {
    if speakers.len() > 0 {
        filters.insert(volume_filter_name_spec(), volume_filter())
    } else {
        filters
    }
}

/// The filters of the output channels: the peaking filters of a table
/// of bands, then a delay and a gain for every speaker, and the volume
/// filter.
pub open spec fn output_filters<N>(
    speakers: Seq<Speaker<N>>,
    names: Seq<Seq<char>>,
    bands: Seq<Seq<PeqBand<N>>>,
) -> Map<Seq<char>, SpeakerAdjust<N>> {
    with_volume_filter(
        with_gain_filters(
            with_delay_filters(
                peq_filters(names, bands, names.len() as int),
                speakers,
                speakers.len() as int,
            ),
            speakers,
            speakers.len() as int,
        ),
        speakers,
    )
}

/// Every filter of `filters` is recorded with the kind that the engine
/// expects of it.
pub open spec fn all_well_typed<N>(filters: Map<Seq<char>, SpeakerAdjust<N>>) -> bool {
    forall|name: Seq<char>| filters.dom().contains(name) ==> (#[trigger] filters[name]).well_typed()
}

/// The crossover filters are recorded as crossover filters.
pub proof fn lemma_crossover_filters_well_typed<N>(speakers: Seq<Speaker<N>>, n: int)
    ensures
        all_well_typed(crossover_filters(speakers, n)),
    decreases n,
{
    if n > 0 {
        lemma_crossover_filters_well_typed(speakers, n - 1);
    }
}

proof fn lemma_band_filters_well_typed<N>(
    filters: Map<Seq<char>, SpeakerAdjust<N>>,
    name: Seq<char>,
    bands: Seq<PeqBand<N>>,
    m: int,
)
    requires
        all_well_typed(filters),
    ensures
        all_well_typed(with_band_filters(filters, name, bands, m)),
    decreases m,
{
    if m > 0 {
        lemma_band_filters_well_typed(filters, name, bands, m - 1);
    }
}

proof fn lemma_peq_filters_well_typed<N>(
    names: Seq<Seq<char>>,
    bands: Seq<Seq<PeqBand<N>>>,
    n: int,
)
    ensures
        all_well_typed(peq_filters(names, bands, n)),
    decreases n,
{
    if n > 0 {
        lemma_peq_filters_well_typed(names, bands, n - 1);
        lemma_band_filters_well_typed(
            peq_filters(names, bands, n - 1),
            names[n - 1],
            bands[n - 1],
            bands[n - 1].len() as int,
        );
    }
}

proof fn lemma_delay_filters_well_typed<N>(
    filters: Map<Seq<char>, SpeakerAdjust<N>>,
    speakers: Seq<Speaker<N>>,
    n: int,
)
    requires
        all_well_typed(filters),
    ensures
        all_well_typed(with_delay_filters(filters, speakers, n)),
    decreases n,
{
    if n > 0 {
        lemma_delay_filters_well_typed(filters, speakers, n - 1);
    }
}

proof fn lemma_gain_filters_well_typed<N>(
    filters: Map<Seq<char>, SpeakerAdjust<N>>,
    speakers: Seq<Speaker<N>>,
    n: int,
)
    requires
        all_well_typed(filters),
    ensures
        all_well_typed(with_gain_filters(filters, speakers, n)),
    decreases n,
{
    if n > 0 {
        lemma_gain_filters_well_typed(filters, speakers, n - 1);
    }
}

/// The filters of the output channels are recorded with their kinds: a
/// band as a biquad, a delay as a delay, a gain as a gain, the volume
/// filter as a volume filter.
pub proof fn lemma_output_filters_well_typed<N>(
    speakers: Seq<Speaker<N>>,
    names: Seq<Seq<char>>,
    bands: Seq<Seq<PeqBand<N>>>,
)
    ensures
        all_well_typed(output_filters(speakers, names, bands)),
{
    let n = speakers.len() as int;
    let peaking = peq_filters(names, bands, names.len() as int);
    lemma_peq_filters_well_typed(names, bands, names.len() as int);
    lemma_delay_filters_well_typed(peaking, speakers, n);
    lemma_gain_filters_well_typed(with_delay_filters(peaking, speakers, n), speakers, n);
}

/// Defines the filters of the output channels: a peaking filter for
/// every equalizer band, a delay and a gain for every speaker, and the
/// volume filter that all speakers share.
pub fn create_output_filters<N: Copy>(
    speakers: &[Speaker<N>],
    peq_filters: &NameMap<Vec<PeqBand<N>>>,
) -> (filters: NameMap<SpeakerAdjust<N>>)
    requires
        peq_filters.wf(),
    ensures
        filters.wf(),
        filters@ == output_filters(speakers@, peq_filters.names(), peq_filters.value_views()),
{
    let ghost names = peq_filters.names();
    let ghost bands = peq_filters.value_views();
    let mut filters: NameMap<SpeakerAdjust<N>> = NameMap::new();
    let mut i: usize = 0;
    while i < peq_filters.len()
        invariant
            peq_filters.wf(),
            names == peq_filters.names(),
            bands == peq_filters.value_views(),
            i <= names.len(),
            filters.wf(),
            filters@ == self::peq_filters(names, bands, i as int),
        decreases names.len() - i,
    {
        let name = peq_filters.name_at(i);
        let speaker_bands = peq_filters.value_at(i);
        let ghost done = filters@;
        let mut k: usize = 0;
        while k < speaker_bands.len()
            invariant
                speaker_bands@ == bands[i as int],
                name@ == names[i as int],
                k <= speaker_bands@.len(),
                filters.wf(),
                filters@ == with_band_filters(done, names[i as int], bands[i as int], k as int),
            decreases speaker_bands.len() - k,
        {
            let band = speaker_bands[k];
            filters.insert(
                peq_filter_name(name.as_str(), band.index),
                SpeakerAdjust::PeakingFilter(
                    PeakingFilter {
                        filter_type: FilterType::Biquad,
                        parameters: PeakingParameters {
                            freq: band.freq,
                            q: band.q,
                            gain: band.gain,
                            peaking_type: PeakingType::Peaking,
                        },
                    },
                ),
            );
            k += 1;
        }
        i += 1;
    }
    let mut i: usize = 0;
    let ghost peaking = filters@;
    while i < speakers.len()
        invariant
            i <= speakers@.len(),
            filters.wf(),
            filters@ == with_delay_filters(peaking, speakers@, i as int),
        decreases speakers.len() - i,
    {
        let speaker = &speakers[i];
        filters.insert(
            delay_filter_name(speaker.speaker.as_str()),
            SpeakerAdjust::DelayFilter(
                DelayFilter {
                    filter_type: FilterType::Delay,
                    parameters: DelayParameters { delay: speaker.delay, unit: DelayUnit::Ms },
                },
            ),
        );
        i += 1;
    }
    let mut i: usize = 0;
    let ghost delayed = filters@;
    while i < speakers.len()
        invariant
            i <= speakers@.len(),
            filters.wf(),
            filters@ == with_gain_filters(delayed, speakers@, i as int),
        decreases speakers.len() - i,
    {
        let speaker = &speakers[i];
        filters.insert(
            gain_filter_name(speaker.speaker.as_str()),
            SpeakerAdjust::GainFilter(
                GainFilter {
                    filter_type: FilterType::Gain,
                    parameters: GainParameters { gain: speaker.gain, inverted: false },
                },
            ),
        );
        i += 1;
    }
    if speakers.len() > 0 {
        filters.insert(
            volume_filter_name(),
            SpeakerAdjust::VolumeFilter(
                VolumeFilter {
                    filter_type: FilterType::Volume,
                    parameters: VolumeParameters { ramp_time: VOLUME_RAMP_TIME },
                },
            ),
        );
    }
    filters
}

} // verus!
