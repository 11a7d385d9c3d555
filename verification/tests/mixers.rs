use avprocessor::mixers::{
    combine_inputs, get_speaker_counts, split_inputs, ChannelCount, Mixer, OutputChannelEntry,
};
use avprocessor::name_map::NameMap;
use avprocessor::processor::Speaker;

#[test]
fn test_speaker_counts_no_sub() {
    let speakers: Vec<Speaker<f32>> = vec![
        Speaker {
            speaker: "l".to_string(),
            crossover: Some(100),
            delay: 10.0,
            is_subwoofer: false,
            gain: 2.0,
        },
        Speaker {
            speaker: "r".to_string(),
            crossover: Some(100),
            delay: 10.0,
            is_subwoofer: false,
            gain: 2.0,
        },
        Speaker {
            speaker: "sl".to_string(),
            crossover: Some(100),
            delay: 10.0,
            is_subwoofer: false,
            gain: 2.0,
        },
        Speaker {
            speaker: "sr".to_string(),
            crossover: Some(100),
            delay: 10.0,
            is_subwoofer: false,
            gain: 2.0,
        },
    ];
    let result = get_speaker_counts(&speakers);
    assert!(result.speakers_exclude_sub == 4);
    assert!(result.input_subwoofers == 0);
    assert!(result.output_subwoofers == 0);
}
#[test]
fn test_speaker_counts_one_sub() {
    let speakers: Vec<Speaker<f32>> = vec![
        Speaker {
            speaker: "l".to_string(),
            crossover: Some(100),
            delay: 10.0,
            is_subwoofer: false,
            gain: 2.0,
        },
        Speaker {
            speaker: "r".to_string(),
            crossover: Some(100),
            delay: 10.0,
            is_subwoofer: false,
            gain: 2.0,
        },
        Speaker {
            speaker: "sl".to_string(),
            crossover: Some(100),
            delay: 10.0,
            is_subwoofer: false,
            gain: 2.0,
        },
        Speaker {
            speaker: "sr".to_string(),
            crossover: Some(100),
            delay: 10.0,
            is_subwoofer: false,
            gain: 2.0,
        },
        Speaker {
            speaker: "sub1".to_string(),
            crossover: None,
            delay: 10.0,
            is_subwoofer: true,
            gain: 2.0,
        },
    ];
    let result = get_speaker_counts(&speakers);
    assert!(result.speakers_exclude_sub == 4);
    assert!(result.input_subwoofers == 1);
    assert!(result.output_subwoofers == 1);
}
#[test]
fn test_speaker_counts_two_sub() {
    let speakers: Vec<Speaker<f32>> = vec![
        Speaker {
            speaker: "l".to_string(),
            crossover: Some(100),
            delay: 10.0,
            is_subwoofer: false,
            gain: 2.0,
        },
        Speaker {
            speaker: "r".to_string(),
            crossover: Some(100),
            delay: 10.0,
            is_subwoofer: false,
            gain: 2.0,
        },
        Speaker {
            speaker: "sl".to_string(),
            crossover: Some(100),
            delay: 10.0,
            is_subwoofer: false,
            gain: 2.0,
        },
        Speaker {
            speaker: "sr".to_string(),
            crossover: Some(100),
            delay: 10.0,
            is_subwoofer: false,
            gain: 2.0,
        },
        Speaker {
            speaker: "sub1".to_string(),
            crossover: None,
            delay: 10.0,
            is_subwoofer: true,
            gain: 2.0,
        },
        Speaker {
            speaker: "sub2".to_string(),
            crossover: None,
            delay: 10.0,
            is_subwoofer: true,
            gain: 2.0,
        },
    ];
    let result = get_speaker_counts(&speakers);
    assert!(result.speakers_exclude_sub == 4);
    assert!(result.input_subwoofers == 1);
    assert!(result.output_subwoofers == 2);
}

#[test]
fn test_init_mixer_no_sub() {
    let speakers: Vec<Speaker<f32>> = vec![
        Speaker {
            speaker: "l".to_string(),
            crossover: Some(100),
            delay: 10.0,
            is_subwoofer: false,
            gain: 2.0,
        },
        Speaker {
            speaker: "r".to_string(),
            crossover: Some(100),
            delay: 10.0,
            is_subwoofer: false,
            gain: 2.0,
        },
        Speaker {
            speaker: "sl".to_string(),
            crossover: Some(100),
            delay: 10.0,
            is_subwoofer: false,
            gain: 2.0,
        },
        Speaker {
            speaker: "sr".to_string(),
            crossover: Some(100),
            delay: 10.0,
            is_subwoofer: false,
            gain: 2.0,
        },
    ];
    let speaker_counts = get_speaker_counts(&speakers);
    let result = split_inputs(&speakers, &speaker_counts);
    assert!(result.is_none());
}
#[test]
fn test_init_mixer_one_sub() {
    let speakers: Vec<Speaker<f32>> = vec![
        Speaker {
            speaker: "l".to_string(),
            crossover: Some(100),
            delay: 10.0,
            is_subwoofer: false,
            gain: 2.0,
        },
        Speaker {
            speaker: "r".to_string(),
            crossover: Some(100),
            delay: 10.0,
            is_subwoofer: false,
            gain: 2.0,
        },
        Speaker {
            speaker: "sl".to_string(),
            crossover: Some(100),
            delay: 10.0,
            is_subwoofer: false,
            gain: 2.0,
        },
        Speaker {
            speaker: "sr".to_string(),
            crossover: Some(100),
            delay: 10.0,
            is_subwoofer: false,
            gain: 2.0,
        },
        Speaker {
            speaker: "sub1".to_string(),
            crossover: None,
            delay: 10.0,
            is_subwoofer: true,
            gain: 2.0,
        },
    ];
    let speaker_counts = get_speaker_counts(&speakers);
    let result = split_inputs(&speakers, &speaker_counts).unwrap();
    assert!(result.0.mapping.len() == 9);

    assert!(result.0.mapping[0].dest == 0);
    assert!(result.0.mapping[0].sources[0].channel == 0);

    assert!(result.0.mapping[1].dest == 1);
    assert!(result.0.mapping[1].sources[0].channel == 0);

    assert!(result.0.mapping[2].dest == 2);
    assert!(result.0.mapping[2].sources[0].channel == 1);

    assert!(result.0.mapping[3].dest == 3);
    assert!(result.0.mapping[3].sources[0].channel == 1);

    assert!(result.0.mapping[4].dest == 4);
    assert!(result.0.mapping[4].sources[0].channel == 2);

    assert!(result.0.mapping[5].dest == 5);
    assert!(result.0.mapping[5].sources[0].channel == 2);

    assert!(result.0.mapping[6].dest == 6);
    assert!(result.0.mapping[6].sources[0].channel == 3);

    assert!(result.0.mapping[7].dest == 7);
    assert!(result.0.mapping[7].sources[0].channel == 3);

    assert!(result.0.mapping[8].dest == 8);
    assert!(result.0.mapping[8].sources[0].channel == 4);
}

#[test]
fn test_init_mixer_one_sub_passthrough() {
    let speakers: Vec<Speaker<f32>> = vec![
        Speaker {
            speaker: "l".to_string(),
            crossover: None, //no subwoofer in mix
            delay: 10.0,
            is_subwoofer: false,
            gain: 2.0,
        },
        Speaker {
            speaker: "r".to_string(),
            crossover: Some(100),
            delay: 10.0,
            is_subwoofer: false,
            gain: 2.0,
        },
        Speaker {
            speaker: "sl".to_string(),
            crossover: Some(100),
            delay: 10.0,
            is_subwoofer: false,
            gain: 2.0,
        },
        Speaker {
            speaker: "sr".to_string(),
            crossover: Some(100),
            delay: 10.0,
            is_subwoofer: false,
            gain: 2.0,
        },
        Speaker {
            speaker: "sub1".to_string(),
            crossover: None,
            delay: 10.0,
            is_subwoofer: true,
            gain: 2.0,
        },
    ];
    let speaker_counts = get_speaker_counts(&speakers);
    let result = split_inputs(&speakers, &speaker_counts).unwrap();
    assert!(result.0.mapping.len() == 8);

    assert!(result.0.mapping[0].dest == 0); //passthrough
    assert!(result.0.mapping[0].sources[0].channel == 0);

    assert!(result.0.mapping[1].dest == 1);
    assert!(result.0.mapping[1].sources[0].channel == 1);

    assert!(result.0.mapping[2].dest == 2);
    assert!(result.0.mapping[2].sources[0].channel == 1);

    assert!(result.0.mapping[3].dest == 3);
    assert!(result.0.mapping[3].sources[0].channel == 2);

    assert!(result.0.mapping[4].dest == 4);
    assert!(result.0.mapping[4].sources[0].channel == 2);

    assert!(result.0.mapping[5].dest == 5);
    assert!(result.0.mapping[5].sources[0].channel == 3);

    assert!(result.0.mapping[6].dest == 6);
    assert!(result.0.mapping[6].sources[0].channel == 3);

    assert!(result.0.mapping[7].dest == 7);
    assert!(result.0.mapping[7].sources[0].channel == 4);
}

#[test]
fn test_init_mixer_one_sub_no_crossover() {
    let speakers: Vec<Speaker<f32>> = vec![
        Speaker {
            speaker: "l".to_string(),
            crossover: None, //no subwoofer in mix
            delay: 10.0,
            is_subwoofer: false,
            gain: 2.0,
        },
        Speaker {
            speaker: "r".to_string(),
            crossover: None,
            delay: 10.0,
            is_subwoofer: false,
            gain: 2.0,
        },
        Speaker {
            speaker: "sl".to_string(),
            crossover: None,
            delay: 10.0,
            is_subwoofer: false,
            gain: 2.0,
        },
        Speaker {
            speaker: "sr".to_string(),
            crossover: None,
            delay: 10.0,
            is_subwoofer: false,
            gain: 2.0,
        },
        Speaker {
            speaker: "sub1".to_string(),
            crossover: None,
            delay: 10.0,
            is_subwoofer: true,
            gain: 2.0,
        },
    ];
    let speaker_counts = get_speaker_counts(&speakers);
    let result = split_inputs(&speakers, &speaker_counts).unwrap();
    assert!(result.0.mapping.len() == 5);

    assert!(result.0.mapping[0].dest == 0); //passthrough
    assert!(result.0.mapping[0].sources[0].channel == 0);

    assert!(result.0.mapping[1].dest == 1);
    assert!(result.0.mapping[1].sources[0].channel == 1);

    assert!(result.0.mapping[2].dest == 2);
    assert!(result.0.mapping[2].sources[0].channel == 2);

    assert!(result.0.mapping[3].dest == 3);
    assert!(result.0.mapping[3].sources[0].channel == 3);

    assert!(result.0.mapping[4].dest == 4);
    assert!(result.0.mapping[4].sources[0].channel == 4);
}
#[test]
fn test_init_mixer_two_sub() {
    let speakers: Vec<Speaker<f32>> = vec![
        Speaker {
            speaker: "l".to_string(),
            crossover: Some(100),
            delay: 10.0,
            is_subwoofer: false,
            gain: 2.0,
        },
        Speaker {
            speaker: "r".to_string(),
            crossover: Some(100),
            delay: 10.0,
            is_subwoofer: false,
            gain: 2.0,
        },
        Speaker {
            speaker: "sl".to_string(),
            crossover: Some(100),
            delay: 10.0,
            is_subwoofer: false,
            gain: 2.0,
        },
        Speaker {
            speaker: "sr".to_string(),
            crossover: Some(100),
            delay: 10.0,
            is_subwoofer: false,
            gain: 2.0,
        },
        Speaker {
            speaker: "sub1".to_string(),
            crossover: None,
            delay: 10.0,
            is_subwoofer: true,
            gain: 2.0,
        },
        Speaker {
            speaker: "sub2".to_string(),
            crossover: None,
            delay: 10.0,
            is_subwoofer: true,
            gain: 2.0,
        },
    ];
    let speaker_counts = get_speaker_counts(&speakers);
    let result = split_inputs(&speakers, &speaker_counts).unwrap();
    assert!(result.0.mapping.len() == 9);

    assert!(result.0.mapping[0].dest == 0);
    assert!(result.0.mapping[0].sources[0].channel == 0);

    assert!(result.0.mapping[1].dest == 1);
    assert!(result.0.mapping[1].sources[0].channel == 0);

    assert!(result.0.mapping[2].dest == 2);
    assert!(result.0.mapping[2].sources[0].channel == 1);

    assert!(result.0.mapping[3].dest == 3);
    assert!(result.0.mapping[3].sources[0].channel == 1);

    assert!(result.0.mapping[4].dest == 4);
    assert!(result.0.mapping[4].sources[0].channel == 2);

    assert!(result.0.mapping[5].dest == 5);
    assert!(result.0.mapping[5].sources[0].channel == 2);

    assert!(result.0.mapping[6].dest == 6);
    assert!(result.0.mapping[6].sources[0].channel == 3);

    assert!(result.0.mapping[7].dest == 7);
    assert!(result.0.mapping[7].sources[0].channel == 3);

    assert!(result.0.mapping[8].dest == 8);
    assert!(result.0.mapping[8].sources[0].channel == 4);
}

#[test]
fn check_final_mixer_6_speakers_1_sub() {
    let speakers: Vec<Speaker<f32>> = vec![
        Speaker {
            speaker: "l".to_string(),
            crossover: Some(100),
            delay: 10.0,
            is_subwoofer: false,
            gain: 2.0,
        },
        Speaker {
            speaker: "r".to_string(),
            crossover: Some(100),
            delay: 10.0,
            is_subwoofer: false,
            gain: 2.0,
        },
        Speaker {
            speaker: "c".to_string(),
            crossover: Some(100),
            delay: 10.0,
            is_subwoofer: false,
            gain: 2.0,
        },
        Speaker {
            speaker: "sl".to_string(),
            crossover: Some(100),
            delay: 10.0,
            is_subwoofer: false,
            gain: 2.0,
        },
        Speaker {
            speaker: "sr".to_string(),
            crossover: Some(100),
            delay: 10.0,
            is_subwoofer: false,
            gain: 2.0,
        },
        Speaker {
            speaker: "sub1".to_string(),
            crossover: Some(100),
            delay: 10.0,
            is_subwoofer: true,
            gain: 2.0,
        },
    ];
    let mut output_channel_mapping: NameMap<OutputChannelEntry> = NameMap::new();
    let l = "l".to_string();
    let r = "r".to_string();
    let c = "c".to_string();
    let sl = "sl".to_string();
    let sr = "sr".to_string();
    let sub1 = "sub1".to_string();
    output_channel_mapping.insert(l.clone(), OutputChannelEntry { dest_index: 0, tracks: vec![0] });
    output_channel_mapping.insert(r.clone(), OutputChannelEntry { dest_index: 1, tracks: vec![2] });
    output_channel_mapping.insert(c.clone(), OutputChannelEntry { dest_index: 2, tracks: vec![4] });
    output_channel_mapping.insert(sl.clone(), OutputChannelEntry { dest_index: 3, tracks: vec![6] });
    output_channel_mapping.insert(sr.clone(), OutputChannelEntry { dest_index: 4, tracks: vec![8] });
    output_channel_mapping.insert(sub1.clone(), OutputChannelEntry { dest_index: 5, tracks: vec![1, 3, 5, 7, 9, 10] });
    let split_mixer = Mixer {
        channels: ChannelCount {
            num_in_channel: 0,
            num_out_channel: 11,
        },
        mapping: vec![],
    };
    let mix = combine_inputs(
        &get_speaker_counts(&speakers),
        &split_mixer,
        &output_channel_mapping,
        //&speakers,
    );
    assert_eq!(mix.channels.num_in_channel, 11); //2*(6-1)+1 sub passthrough
    assert_eq!(mix.channels.num_out_channel, 6); //total speaker count
    for value in mix.mapping.iter() {
        println!("destination: {}", value.dest);
        println!("sources size: {}", value.sources.len());
    }
    assert_eq!(mix.mapping.len(), 6);

    //everything should have 1 source except the subwoofer, which has size 6
    assert_eq!(
        mix.mapping.iter().filter(|v| v.sources.len() == 1).count(),
        5
    );

    assert_eq!(
        mix.mapping.iter().filter(|v| v.sources.len() == 6).count(), //6 sources including sub passthrough
        1
    );
}
#[test]
fn check_final_mixer_7_speakers_2_sub() {
    let speakers: Vec<Speaker<f32>> = vec![
        Speaker {
            speaker: "l".to_string(),
            crossover: Some(100),
            delay: 10.0,
            is_subwoofer: false,
            gain: 2.0,
        },
        Speaker {
            speaker: "r".to_string(),
            crossover: Some(100),
            delay: 10.0,
            is_subwoofer: false,
            gain: 2.0,
        },
        Speaker {
            speaker: "c".to_string(),
            crossover: Some(100),
            delay: 10.0,
            is_subwoofer: false,
            gain: 2.0,
        },
        Speaker {
            speaker: "sl".to_string(),
            crossover: Some(100),
            delay: 10.0,
            is_subwoofer: false,
            gain: 2.0,
        },
        Speaker {
            speaker: "sr".to_string(),
            crossover: Some(100),
            delay: 10.0,
            is_subwoofer: false,
            gain: 2.0,
        },
        Speaker {
            speaker: "sub1".to_string(),
            crossover: None,
            delay: 10.0,
            is_subwoofer: true,
            gain: 2.0,
        },
        Speaker {
            speaker: "sub2".to_string(),
            crossover: None,
            delay: 10.0,
            is_subwoofer: true,
            gain: 2.0,
        },
    ];

    let mut output_channel_mapping: NameMap<OutputChannelEntry> = NameMap::new();

    let l = "l".to_string();
    let r = "r".to_string();
    let c = "c".to_string();
    let sl = "sl".to_string();
    let sr = "sr".to_string();
    let sub1 = "sub1".to_string();
    let sub2 = "sub2".to_string();
    output_channel_mapping.insert(l.clone(), OutputChannelEntry { dest_index: 0, tracks: vec![0] });
    output_channel_mapping.insert(r.clone(), OutputChannelEntry { dest_index: 1, tracks: vec![2] });
    output_channel_mapping.insert(c.clone(), OutputChannelEntry { dest_index: 2, tracks: vec![4] });
    output_channel_mapping.insert(sl.clone(), OutputChannelEntry { dest_index: 3, tracks: vec![6] });
    output_channel_mapping.insert(sr.clone(), OutputChannelEntry { dest_index: 4, tracks: vec![8] });
    output_channel_mapping.insert(sub1.clone(), OutputChannelEntry { dest_index: 5, tracks: vec![1, 3, 5, 7, 9, 10] });
    output_channel_mapping.insert(sub2.clone(), OutputChannelEntry { dest_index: 6, tracks: vec![1, 3, 5, 7, 9, 10] });

    let split_mixer = Mixer {
        channels: ChannelCount {
            num_in_channel: 0,
            num_out_channel: 11,
        },
        mapping: vec![],
    };
    let mix = combine_inputs(
        &get_speaker_counts(&speakers),
        &split_mixer,
        &output_channel_mapping,
        //&speakers,
    );
    assert_eq!(mix.channels.num_in_channel, 11); //2*(6-1)+1 sub input
    assert_eq!(mix.channels.num_out_channel, 7); //total speaker count

    assert_eq!(mix.mapping.len(), 7);
    //everything should have 1 source except the subwoofers, which has size 6
    assert_eq!(
        mix.mapping.iter().filter(|v| v.sources.len() == 1).count(),
        5 //5 speakers
    );

    assert_eq!(
        mix.mapping.iter().filter(|v| v.sources.len() == 6).count(), //6 sources including sub passthrough
        2                                                            //two subs
    );
}

#[test]
fn check_final_mixer_5_speakers_2_sub_one_crossover() {
    let speakers: Vec<Speaker<f32>> = vec![
        Speaker {
            speaker: "l".to_string(),
            crossover: Some(100),
            delay: 10.0,
            is_subwoofer: false,
            gain: 2.0,
        },
        Speaker {
            speaker: "r".to_string(),
            crossover: None,
            delay: 10.0,
            is_subwoofer: false,
            gain: 2.0,
        },
        Speaker {
            speaker: "c".to_string(),
            crossover: None,
            delay: 10.0,
            is_subwoofer: false,
            gain: 2.0,
        },
        Speaker {
            speaker: "sub1".to_string(),
            crossover: None,
            delay: 10.0,
            is_subwoofer: true,
            gain: 2.0,
        },
        Speaker {
            speaker: "sub2".to_string(),
            crossover: None,
            delay: 10.0,
            is_subwoofer: true,
            gain: 2.0,
        },
    ];

    let mut output_channel_mapping: NameMap<OutputChannelEntry> = NameMap::new();
    let l = "l".to_string();
    let r = "r".to_string();
    let c = "c".to_string();
    let sub1 = "sub1".to_string();
    let sub2 = "sub2".to_string();
    output_channel_mapping.insert(l.clone(), OutputChannelEntry { dest_index: 0, tracks: vec![0] });
    output_channel_mapping.insert(r.clone(), OutputChannelEntry { dest_index: 1, tracks: vec![2] });
    output_channel_mapping.insert(c.clone(), OutputChannelEntry { dest_index: 2, tracks: vec![3] });
    output_channel_mapping.insert(sub1.clone(), OutputChannelEntry { dest_index: 3, tracks: vec![1, 4] });
    output_channel_mapping.insert(sub2.clone(), OutputChannelEntry { dest_index: 4, tracks: vec![1, 4] });
    let split_mixer = Mixer {
        channels: ChannelCount {
            num_in_channel: 0,
            num_out_channel: 6,
        },
        mapping: vec![],
    };
    let mix = combine_inputs(
        &get_speaker_counts(&speakers),
        &split_mixer,
        &output_channel_mapping,
        //&speakers,
    );
    assert_eq!(mix.channels.num_in_channel, 6); //2*(3-1)+1 sub input+1 passthrough
    assert_eq!(mix.channels.num_out_channel, 5); //total speaker count

    assert_eq!(mix.mapping.len(), 5);
    assert_eq!(
        mix.mapping.iter().filter(|v| v.sources.len() == 1).count(),
        3 //3 speakers
    );

    assert_eq!(
        mix.mapping.iter().filter(|v| v.sources.len() == 2).count(), //2 sources including sub passthrough
        2                                                            //two subs
    );
}

fn plain_speaker(name: &str, crossover: Option<i32>, is_subwoofer: bool) -> Speaker<f32> {
    Speaker { speaker: name.to_string(), crossover, delay: 0.0, gain: 0.0, is_subwoofer }
}

#[test]
fn the_subwoofer_input_is_named_after_its_index() {
    let speakers = vec![plain_speaker("l", None, false), plain_speaker("sub1", None, true)];
    let counts = get_speaker_counts(&speakers);
    assert_eq!(counts.input_subwoofer_speakers, vec!["subwoofer_input_0".to_string()]);
    assert_eq!(avprocessor::mixers::subwoofer_input_name(0), "subwoofer_input_0");
    assert_eq!(avprocessor::mixers::subwoofer_input_name(12), "subwoofer_input_12");
    assert_eq!(avprocessor::mixers::input_speaker_count(&counts), 2);
    assert_eq!(avprocessor::mixers::output_speaker_count_no_mixer(&counts), 2);
    assert_eq!(avprocessor::mixers::split_mixer_name(), "split_non_sub");
    assert_eq!(avprocessor::mixers::combine_mixer_name(), "combine_sub");
}

#[test]
fn no_speakers_no_counts() {
    let speakers: Vec<Speaker<f32>> = vec![];
    let counts = get_speaker_counts(&speakers);
    assert_eq!(counts.speakers_exclude_sub, 0);
    assert_eq!(counts.input_subwoofers, 0);
    assert_eq!(counts.output_subwoofers, 0);
    assert!(counts.input_subwoofer_speakers.is_empty());
    assert!(split_inputs(&speakers, &counts).is_none());
}

#[test]
fn split_inputs_records_the_tracks_of_every_channel() {
    let speakers = vec![
        plain_speaker("l", Some(80), false),
        plain_speaker("c", None, false),
        plain_speaker("sub1", None, true),
        plain_speaker("sub2", None, true),
    ];
    let counts = get_speaker_counts(&speakers);
    let (mixer, inputs, outputs) = split_inputs(&speakers, &counts).unwrap();
    assert_eq!(mixer.channels, ChannelCount { num_in_channel: 3, num_out_channel: 4 });
    let input = |name: &str| inputs.get(name).unwrap().clone();
    assert_eq!(
        input("l"),
        avprocessor::mixers::InputChannelEntry {
            has_crossover: true,
            is_subwoofer: false,
            origin_index: 0,
            tracks: vec![0, 1]
        }
    );
    assert_eq!(
        input("c"),
        avprocessor::mixers::InputChannelEntry {
            has_crossover: false,
            is_subwoofer: false,
            origin_index: 1,
            tracks: vec![2]
        }
    );
    assert_eq!(
        input("subwoofer_input_0"),
        avprocessor::mixers::InputChannelEntry {
            has_crossover: false,
            is_subwoofer: true,
            origin_index: 2,
            tracks: vec![3]
        }
    );
    assert_eq!(inputs.len(), 3);
    assert_eq!(outputs.get("l"), Some(&OutputChannelEntry { dest_index: 0, tracks: vec![0] }));
    assert_eq!(outputs.get("c"), Some(&OutputChannelEntry { dest_index: 1, tracks: vec![2] }));
    assert_eq!(outputs.get("sub1"), Some(&OutputChannelEntry { dest_index: 2, tracks: vec![1, 3] }));
    assert_eq!(outputs.get("sub2"), Some(&OutputChannelEntry { dest_index: 3, tracks: vec![1, 3] }));
    // c, l, subwoofer_input_0: in the order of the names
    let dests: Vec<usize> = mixer.mapping.iter().map(|m| m.dest).collect();
    assert_eq!(dests, vec![2, 0, 1, 3]);
    let gains: Vec<i32> = mixer.mapping.iter().map(|m| m.sources[0].gain).collect();
    assert_eq!(gains, vec![0, 0, 0, 10]);
    let combine = combine_inputs(&counts, &mixer, &outputs);
    assert_eq!(combine.channels, ChannelCount { num_in_channel: 4, num_out_channel: 4 });
    assert_eq!(combine.channels.num_in_channel, mixer.channels.num_out_channel);
}
