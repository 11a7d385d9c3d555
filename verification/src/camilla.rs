//! The routing graph of a layout: its mixers, its filter definitions, its
//! pipeline and its devices.
//!
//! A layout with a subwoofer is routed through two mixers. The split
//! mixer gives every main speaker a track of its own and, if it has a
//! crossover, a low-frequency track; the crossover filters work on these
//! tracks; the combine mixer sums the low-frequency tracks and the
//! subwoofer input into every subwoofer. A layout without a subwoofer
//! needs no mixer: every speaker is filtered on its own channel.

use crate::devices::{device_profile, Devices, DevicesView};
use crate::filters::{
    all_well_typed, compute_peq_filter, create_crossover_filters, create_output_filters,
    crossover_filters, lemma_crossover_filters_paired, lemma_crossover_filters_well_typed,
    lemma_output_filters_well_typed, output_filters, peq_table, SpeakerAdjust,
};
use crate::mixers::{
    combine_inputs, combine_mixer, combine_mixer_name, get_speaker_counts, input_speaker_count,
    input_subwoofer_count, input_table, inputs_upto, lemma_channel_counts_conserved,
    lemma_combine_mixer_in_range, lemma_mains_and_subwoofers, lemma_split_mixer_in_range,
    lemma_tables_walk, lemma_tracks_before_bound, main_count, main_inputs,
    output_speaker_count_no_mixer, output_table, split_inputs, split_mixer, split_mixer_name,
    subwoofer_count, subwoofer_input_name_spec, track_count, tracks_fit, Mixer, MixerView,
};
use crate::name_map::{names_of, values_of, NameMap};
use crate::pipeline::{
    bands_of, create_crossover_pipeline, create_per_speaker_pipeline,
    create_per_speaker_pipeline_no_mixer, crossover_names, crossover_pipeline,
    crossover_stages_upto, filter_stage, lemma_crossover_count_of_table,
    lemma_crossover_stage_count, per_speaker_pipeline, per_speaker_pipeline_no_mixer,
    speaker_chain, speaker_stage, stage_views, Pipeline, PipelineView,
};
use crate::processor::{
    is_split, names_distinct, split_speakers_before, DeviceType, Filter,
    ProcessorSettingsForCamilla, Speaker,
};
use crate::text::names_increasing;
use vstd::prelude::*;

verus! {

/// A routing graph, as the engine takes it.
#[derive(Clone, Debug, PartialEq)]
pub struct CamillaConfig<N> {
    /// The routing matrices, by name.
    pub mixers: NameMap<Mixer>,
    /// The filter definitions, by name.
    pub filters: NameMap<SpeakerAdjust<N>>,
    /// The stages, in the order in which the engine runs them.
    pub pipeline: Vec<Pipeline>,
    pub devices: Devices,
}

/// What a routing graph holds.
pub struct CamillaConfigView<N> {
    pub mixers: Map<Seq<char>, MixerView>,
    pub filters: Map<Seq<char>, SpeakerAdjust<N>>,
    pub pipeline: Seq<PipelineView>,
    pub devices: DevicesView,
}

impl<N> View for CamillaConfig<N> {
    type V = CamillaConfigView<N>;

    open spec fn view(&self) -> CamillaConfigView<N> {
        CamillaConfigView {
            mixers: self.mixers@,
            filters: self.filters@,
            pipeline: stage_views(self.pipeline@),
            devices: self.devices@,
        }
    }
}

impl<N> CamillaConfig<N> {
    /// The mixers and the filters are walked in the order of their names.
    pub open spec fn wf(&self) -> bool {
        &&& self.mixers.wf()
        &&& self.filters.wf()
    }
}

/// The mixers of a layout: none without a subwoofer, else the split and
/// the combine mixer.
pub open spec fn compiled_mixers<N>(speakers: Seq<Speaker<N>>) -> Map<Seq<char>, MixerView> {
    if subwoofer_count(speakers) == 0 {
        Map::empty()
    } else {
        Map::empty().insert(
            "split_non_sub"@,
            split_mixer(speakers, values_of(input_table(speakers))),
        ).insert(
            "combine_sub"@,
            combine_mixer(
                track_count(speakers) as usize,
                speakers.len() as usize,
                values_of(output_table(speakers)),
            ),
        )
    }
}

/// The filter definitions of a layout: those of the output channels
/// and, with a subwoofer, the crossover filters.
pub open spec fn compiled_filters<N>(speakers: Seq<Speaker<N>>, filters: Seq<Filter<N>>) -> Map<
    Seq<char>,
    SpeakerAdjust<N>,
> {
    let peq = peq_table(filters, filters.len() as int);
    let outputs = output_filters(speakers, names_of(peq), values_of(peq));
    if subwoofer_count(speakers) == 0 {
        outputs
    } else {
        crossover_filters(speakers, speakers.len() as int).union_prefer_right(outputs)
    }
}

/// The pipeline of a layout. Without a subwoofer: one stage for each
/// speaker, in the order of the speakers. With a subwoofer: the split
/// mixer, the crossover stages, the combine mixer, and one stage for
/// each speaker, in the order of the speakers' names.
pub open spec fn compiled_pipeline<N>(speakers: Seq<Speaker<N>>, filters: Seq<Filter<N>>) -> Seq<
    PipelineView,
> {
    let peq = peq_table(filters, filters.len() as int);
    if subwoofer_count(speakers) == 0 {
        per_speaker_pipeline_no_mixer(speakers, peq)
    } else {
        crossover_pipeline(
            "split_non_sub"@,
            "combine_sub"@,
            names_of(input_table(speakers)),
            values_of(input_table(speakers)),
        ) + per_speaker_pipeline(
            names_of(output_table(speakers)),
            values_of(output_table(speakers)),
            peq,
        )
    }
}

/// The devices of a layout: the engine captures one channel for each
/// main speaker and each subwoofer input, and plays one for each speaker.
pub open spec fn compiled_devices<N>(device: DeviceType, speakers: Seq<Speaker<N>>) -> DevicesView {
    device_profile(
        device,
        (main_count(speakers) + input_subwoofer_count(speakers)) as usize,
        speakers.len() as usize,
    )
}

/// The routing graph of `settings`.
pub open spec fn compiled<N>(settings: ProcessorSettingsForCamilla<N>) -> CamillaConfigView<N> {
    CamillaConfigView {
        mixers: compiled_mixers(settings.speakers@),
        filters: compiled_filters(settings.speakers@, settings.filters@),
        pipeline: compiled_pipeline(settings.speakers@, settings.filters@),
        devices: compiled_devices(settings.device, settings.speakers@),
    }
}

/// Compiles the settings into the routing graph of the engine.
pub fn convert_processor_settings_to_camilla<N: Copy>(
    settings: &ProcessorSettingsForCamilla<N>,
) -> (config: CamillaConfig<N>)
    requires
        tracks_fit(settings.speakers@),
    ensures
        config.wf(),
        config@ == compiled(*settings),
{
    let speakers = settings.speakers.as_slice();
    let ghost sp = settings.speakers@;
    let peq_filters = compute_peq_filter(settings.filters.as_slice());
    let speaker_counts = get_speaker_counts(speakers);
    proof {
        lemma_mains_and_subwoofers(sp, sp.len() as int);
        lemma_tracks_before_bound(sp, sp.len() as int);
        peq_filters.lemma_walked_in_order();
    }
    let split = split_inputs(speakers, &speaker_counts);
    let output_filters = create_output_filters(speakers, &peq_filters);
    match split {
        Some((split_mixer, input_channel_mapping, output_channel_mapping)) => {
            proof {
                input_channel_mapping.lemma_walked_in_order();
                output_channel_mapping.lemma_walked_in_order();
                lemma_split_mixer_in_range(
                    sp,
                    input_channel_mapping.names(),
                    input_channel_mapping.value_views(),
                );
            }
            let combine_mixer = combine_inputs(
                &speaker_counts,
                &split_mixer,
                &output_channel_mapping,
            );
            let mut per_speaker_pipeline = create_per_speaker_pipeline(
                &output_channel_mapping,
                &peq_filters,
            );
            let devices = Devices::for_device(
                settings.device,
                split_mixer.channels.num_in_channel,
                combine_mixer.channels.num_out_channel,
            );
            let mut mixers: NameMap<Mixer> = NameMap::new();
            mixers.insert(split_mixer_name(), split_mixer);
            mixers.insert(combine_mixer_name(), combine_mixer);
            let mut filters = create_crossover_filters(speakers);
            let mut pipeline = create_crossover_pipeline(
                split_mixer_name(),
                combine_mixer_name(),
                &input_channel_mapping,
            );
            let ghost crossover = stage_views(pipeline@);
            let ghost per_speaker = stage_views(per_speaker_pipeline@);
            pipeline.append(&mut per_speaker_pipeline);
            filters.extend(output_filters);
            proof {
                assert(stage_views(pipeline@) =~= crossover + per_speaker);
            }
            CamillaConfig { pipeline, filters, mixers, devices }
        },
        None => {
            let input_channels = input_speaker_count(&speaker_counts);
            let output_channels = output_speaker_count_no_mixer(&speaker_counts);
            let pipeline = create_per_speaker_pipeline_no_mixer(speakers, &peq_filters);
            let devices = Devices::for_device(settings.device, input_channels, output_channels);
            CamillaConfig { pipeline, filters: output_filters, mixers: NameMap::new(), devices }
        },
    }
}

/// The names of the two mixers differ.
pub proof fn lemma_mixer_names_differ()
    ensures
        "split_non_sub"@ != "combine_sub"@,
{
    reveal_strlit("split_non_sub");
    reveal_strlit("combine_sub");
    assert("split_non_sub"@[0] != "combine_sub"@[0]);
}

/// The mixers of a layout with a subwoofer meet: the combine mixer takes
/// as many channels as the split mixer leaves, and the split mixer takes
/// one channel for each main speaker and one for the subwoofer input.
/// In both mixers every source and every destination is a channel of
/// the mixer.
pub proof fn lemma_compiled_mixers_meet<N>(speakers: Seq<Speaker<N>>)
    requires
        subwoofer_count(speakers) > 0,
        tracks_fit(speakers),
    ensures
        compiled_mixers(speakers).dom() =~= set!["split_non_sub"@, "combine_sub"@],
        compiled_mixers(speakers)["combine_sub"@].channels.num_in_channel == compiled_mixers(
            speakers,
        )["split_non_sub"@].channels.num_out_channel,
        compiled_mixers(speakers)["split_non_sub"@].channels.num_in_channel == main_count(speakers)
            + 1,
        compiled_mixers(speakers)["combine_sub"@].channels.num_out_channel == speakers.len(),
        compiled_mixers(speakers)["split_non_sub"@].in_range(),
        compiled_mixers(speakers)["combine_sub"@].in_range(),
{
    lemma_mixer_names_differ();
    lemma_tracks_before_bound(speakers, speakers.len() as int);
    let inputs = input_table(speakers);
    let outputs = output_table(speakers);
    lemma_channel_counts_conserved(speakers, values_of(inputs), values_of(outputs));
    lemma_tables_walk(speakers);
    lemma_split_mixer_in_range(speakers, names_of(inputs), values_of(inputs));
    lemma_combine_mixer_in_range(speakers, names_of(outputs), values_of(outputs));
}

/// A layout without a subwoofer has no mixer, and its pipeline holds
/// one stage for each speaker, in the order of the speakers: the stage
/// at position `i` applies the filters of the speaker at position `i` to
/// the channel `i`.
pub proof fn lemma_no_subwoofer_no_mixer<N>(speakers: Seq<Speaker<N>>, filters: Seq<Filter<N>>)
    requires
        subwoofer_count(speakers) == 0,
    ensures
        compiled_mixers(speakers) == Map::<Seq<char>, MixerView>::empty(),
        compiled_pipeline(speakers, filters).len() == speakers.len(),
        forall|i: int|
            0 <= i < speakers.len() ==> #[trigger] compiled_pipeline(speakers, filters)[i]
                == filter_stage(
                i as usize,
                speaker_chain(
                    speakers[i].speaker@,
                    bands_of(peq_table(filters, filters.len() as int), speakers[i].speaker@),
                ),
            ),
{
}

/// Two routing graphs with the same view are walked alike: their mixers
/// and their filters come in the same order, which is the increasing
/// order of their names.
pub proof fn lemma_walk_is_determined<N>(a: &CamillaConfig<N>, b: &CamillaConfig<N>)
    requires
        a.wf(),
        b.wf(),
        a@ == b@,
    ensures
        a.mixers.names() == b.mixers.names(),
        a.mixers.value_views() == b.mixers.value_views(),
        a.filters.names() == b.filters.names(),
        a.filters.value_views() == b.filters.value_views(),
        names_increasing(a.mixers.names()),
        names_increasing(a.filters.names()),
{
    a.mixers.lemma_same_view_same_walk(&b.mixers);
    a.filters.lemma_same_view_same_walk(&b.filters);
}

/// No main speaker goes by the name of a subwoofer input.
pub open spec fn no_reserved_names<N>(speakers: Seq<Speaker<N>>) -> bool {
    forall|i: int, k: int|
        0 <= i < speakers.len() && 0 <= k < input_subwoofer_count(speakers) && !(
        #[trigger] speakers[i]).is_subwoofer ==> speakers[i].speaker@
            != #[trigger] subwoofer_input_name_spec(k as nat)
}

/// Every record of a main speaker is the record of a main speaker of
/// that name.
proof fn lemma_main_input_owner<N>(speakers: Seq<Speaker<N>>, n: int, name: Seq<char>) -> (i: int)
    requires
        0 <= n <= speakers.len(),
        main_inputs(speakers, n).dom().contains(name),
    ensures
        0 <= i < n,
        !speakers[i].is_subwoofer,
        speakers[i].speaker@ == name,
    decreases n,
{
    if !speakers[n - 1].is_subwoofer && speakers[n - 1].speaker@ == name {
        n - 1
    } else {
        lemma_main_input_owner(speakers, n - 1, name)
    }
}

/// Where no two speakers share a name, the records of the main speakers
/// hold one name with a crossover for each main speaker with a
/// crossover frequency.
proof fn lemma_main_crossover_names<N>(speakers: Seq<Speaker<N>>, n: int)
    requires
        names_distinct(speakers),
        0 <= n <= speakers.len(),
    ensures
        crossover_names(main_inputs(speakers, n)).finite(),
        crossover_names(main_inputs(speakers, n)).len() == split_speakers_before(speakers, n),
    decreases n,
{
    if n == 0 {
        assert(crossover_names(main_inputs(speakers, n)) =~= Set::<Seq<char>>::empty());
    } else {
        lemma_main_crossover_names(speakers, n - 1);
        let before = main_inputs(speakers, n - 1);
        let name = speakers[n - 1].speaker@;
        if !speakers[n - 1].is_subwoofer {
            if before.dom().contains(name) {
                let i = lemma_main_input_owner(speakers, n - 1, name);
            }
            if is_split(speakers[n - 1]) {
                assert(crossover_names(main_inputs(speakers, n)) =~= crossover_names(before).insert(
                    name,
                ));
            } else {
                assert(crossover_names(main_inputs(speakers, n)) =~= crossover_names(before));
            }
        }
    }
}

/// Where no main speaker goes by the name of a subwoofer input, the
/// subwoofer inputs add no name with a crossover and take none away.
proof fn lemma_input_crossover_names<N>(speakers: Seq<Speaker<N>>, k: int)
    requires
        no_reserved_names(speakers),
        0 <= k <= input_subwoofer_count(speakers),
    ensures
        crossover_names(inputs_upto(speakers, k)) == crossover_names(
            main_inputs(speakers, speakers.len() as int),
        ),
        forall|name: Seq<char>|
            main_inputs(speakers, speakers.len() as int).dom().contains(name) ==> #[trigger] inputs_upto(
                speakers,
                k,
            ).dom().contains(name) && inputs_upto(speakers, k)[name] == main_inputs(
                speakers,
                speakers.len() as int,
            )[name],
    decreases k,
{
    if k > 0 {
        lemma_input_crossover_names(speakers, k - 1);
        let mains = main_inputs(speakers, speakers.len() as int);
        let reserved = subwoofer_input_name_spec((k - 1) as nat);
        if mains.dom().contains(reserved) {
            let i = lemma_main_input_owner(speakers, speakers.len() as int, reserved);
            assert(speakers[i].speaker@ != subwoofer_input_name_spec((k - 1) as nat));
        }
        assert(crossover_names(inputs_upto(speakers, k)) =~= crossover_names(
            inputs_upto(speakers, k - 1),
        ));
    }
}

/// Where no two speakers share a name and no main speaker goes by the
/// name of a subwoofer input, a layout with a subwoofer has two
/// crossover filters, and its pipeline two crossover stages, for each
/// main speaker with a crossover frequency.
pub proof fn lemma_crossovers_paired<N>(speakers: Seq<Speaker<N>>)
    requires
        names_distinct(speakers),
        no_reserved_names(speakers),
    ensures
        crossover_filters(speakers, speakers.len() as int).dom().finite(),
        crossover_filters(speakers, speakers.len() as int).dom().len() == 2
            * split_speakers_before(speakers, speakers.len() as int),
        crossover_stages_upto(
            names_of(input_table(speakers)),
            values_of(input_table(speakers)),
            names_of(input_table(speakers)).len() as int,
        ).len() == 2 * split_speakers_before(speakers, speakers.len() as int),
{
    let n = speakers.len() as int;
    lemma_crossover_filters_paired(speakers, n);
    lemma_main_crossover_names(speakers, n);
    lemma_input_crossover_names(speakers, input_subwoofer_count(speakers) as int);
    lemma_tables_walk(speakers);
    let names = names_of(input_table(speakers));
    let entries = values_of(input_table(speakers));
    lemma_crossover_count_of_table(names, entries);
    lemma_crossover_stage_count(names, entries, names.len() as int);
}

/// Every filter of a routing graph is recorded with the kind that the
/// engine expects of it.
pub proof fn lemma_compiled_filters_well_typed<N>(
    speakers: Seq<Speaker<N>>,
    filters: Seq<Filter<N>>,
)
    ensures
        all_well_typed(compiled_filters(speakers, filters)),
{
    let peq = peq_table(filters, filters.len() as int);
    lemma_output_filters_well_typed(speakers, names_of(peq), values_of(peq));
    lemma_crossover_filters_well_typed(speakers, speakers.len() as int);
}

/// In the pipeline of a layout with a subwoofer the stages of the
/// speakers follow the combine mixer in the increasing order of the
/// speakers' names, as the crossover stages follow the split mixer in
/// the increasing order of the names of the input channels.
pub proof fn lemma_pipeline_in_name_order<N>(speakers: Seq<Speaker<N>>, filters: Seq<Filter<N>>)
    requires
        subwoofer_count(speakers) > 0,
    ensures
        names_increasing(names_of(input_table(speakers))),
        names_increasing(names_of(output_table(speakers))),
        compiled_pipeline(speakers, filters).len() == 2 + crossover_stages_upto(
            names_of(input_table(speakers)),
            values_of(input_table(speakers)),
            names_of(input_table(speakers)).len() as int,
        ).len() + names_of(output_table(speakers)).len(),
        forall|i: int|
            0 <= i < names_of(output_table(speakers)).len() ==> #[trigger] compiled_pipeline(
                speakers,
                filters,
            )[compiled_pipeline(speakers, filters).len() - names_of(output_table(speakers)).len()
                + i] == speaker_stage(
                names_of(output_table(speakers))[i],
                values_of(output_table(speakers))[i].dest_index,
                peq_table(filters, filters.len() as int),
            ),
{
    lemma_tables_walk(speakers);
}

} // verus!
