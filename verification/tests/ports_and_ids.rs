use rusty_daw_engine::host::HostInfo;
use rusty_daw_engine::node::pan::PanLaw;
use rusty_daw_engine::node::{UniqueNodeID, UniqueNodeType};
use rusty_daw_engine::resource_pool::{DebugBufferType, DebugNodeType};
use rusty_daw_engine::node::sum::{MonoSumNode, StereoSumNode};
use rusty_daw_engine::plugin::audio_ports::{AudioPortInfo, ChannelMap, SampleSize};
use rusty_daw_engine::plugin_instance_pool::{
    UniquePluginInstanceID, UniqueProcessorID, UniqueProcessorType,
};
use rusty_daw_engine::process::{
    steady_time_from_clap, MonoInOutStatus, ProcInfo, ProcAudioBuffer, ProcAudioPorts, ProcessStatus,
    StereoInOutStatus,
};

#[test]
fn engine_version_is_the_crate_version() {
    assert_eq!(HostInfo::rusty_daw_engine_version(), "0.1.0");
}

#[test]
fn mono_sum_node_ports() {
    let none = MonoSumNode::new(0);
    assert_eq!(none.mono_replacing_ports(), 0);
    assert_eq!(none.indep_mono_in_ports(), 0);
    let three = MonoSumNode::new(3);
    assert_eq!(three.mono_replacing_ports(), 1);
    assert_eq!(three.indep_mono_in_ports(), 2);
    assert_eq!(three.debug_name(), "RustyDAWAudioGraph::MonoSum");
}

#[test]
fn stereo_sum_node_ports() {
    let none = StereoSumNode::new(0);
    assert_eq!(none.stereo_replacing_ports(), 0);
    assert_eq!(none.indep_stereo_in_ports(), 0);
    let one = StereoSumNode::new(1);
    assert_eq!(one.stereo_replacing_ports(), 1);
    assert_eq!(one.indep_stereo_in_ports(), 0);
    assert_eq!(one.debug_name(), "RustyDAWAudioGraph::StereoSum");
}

#[test]
fn plugin_instance_ids_count_up() {
    let mut acc: u64 = 0;
    let a = UniquePluginInstanceID::new(&mut acc);
    let b = UniquePluginInstanceID::new(&mut acc);
    assert_eq!(a, UniquePluginInstanceID(1));
    assert_eq!(b, UniquePluginInstanceID(2));
    assert_eq!(acc, 2);
    assert_ne!(a, b);
}

#[test]
fn processor_ids_compare_by_type_and_index() {
    let a = UniqueProcessorID { node_type: UniqueProcessorType::Sum, index: 3, name: "a" };
    let b = UniqueProcessorID { node_type: UniqueProcessorType::Sum, index: 3, name: "b" };
    let c = UniqueProcessorID { node_type: UniqueProcessorType::DelayComp, index: 3, name: "a" };
    let d = UniqueProcessorID { node_type: UniqueProcessorType::Sum, index: 4, name: "a" };
    assert!(a == b);
    assert!(a != c);
    assert!(a != d);
}

#[test]
fn sample_size_codes() {
    assert_eq!(SampleSize::from_clap(32), Some(SampleSize::F32));
    assert_eq!(SampleSize::from_clap(64), Some(SampleSize::F64));
    assert_eq!(SampleSize::from_clap(16), None);
    assert_eq!(SampleSize::F32.to_clap(), 32);
    assert_eq!(SampleSize::F64.to_clap(), 64);
    assert_eq!(SampleSize::default(), SampleSize::F32);
    for s in [SampleSize::F32, SampleSize::F64] {
        assert_eq!(SampleSize::from_clap(s.to_clap()), Some(s));
    }
}

#[test]
fn channel_map_codes() {
    assert_eq!(ChannelMap::from_clap(0), Some(ChannelMap::Unspecified));
    assert_eq!(ChannelMap::from_clap(1), Some(ChannelMap::Mono));
    assert_eq!(ChannelMap::from_clap(2), Some(ChannelMap::Stereo));
    assert_eq!(ChannelMap::from_clap(3), Some(ChannelMap::Surround));
    assert_eq!(ChannelMap::from_clap(4), None);
}

#[test]
fn audio_port_info_from_clap_values() {
    let info = AudioPortInfo::from_clap(7, Some(String::from("Main out")), 2, 2, 32, true, false, true)
        .unwrap();
    assert_eq!(info.unique_stable_id, 7);
    assert_eq!(info.display_name, "Main out");
    assert_eq!(info.channel_count, 2);
    assert_eq!(info.channel_map, ChannelMap::Stereo);
    assert_eq!(info.sample_size, SampleSize::F32);
    assert!(info.is_main);
    assert!(!info.is_cv);
    assert!(info.in_place);
}

#[test]
fn audio_port_info_unreadable_name_shows_error() {
    let info = AudioPortInfo::from_clap(1, None, 1, 1, 64, false, true, false).unwrap();
    assert_eq!(info.display_name, "(error)");
    assert_eq!(info.sample_size, SampleSize::F64);
    assert_eq!(info.channel_map, ChannelMap::Mono);
}

#[test]
fn audio_port_info_rejects_unknown_codes() {
    assert!(AudioPortInfo::from_clap(1, None, 1, 9, 32, false, false, false).is_none());
    assert!(AudioPortInfo::from_clap(1, None, 1, 1, 24, false, false, false).is_none());
}

#[test]
fn process_status_codes() {
    assert_eq!(ProcessStatus::Error.to_clap(), 0);
    assert_eq!(ProcessStatus::Continue.to_clap(), 1);
    assert_eq!(ProcessStatus::ContinueIfNotQuiet.to_clap(), 2);
    assert_eq!(ProcessStatus::Sleep.to_clap(), 4);
    // Every status comes back from its code; unknown codes are refused.
    for s in [ProcessStatus::Error, ProcessStatus::Continue, ProcessStatus::ContinueIfNotQuiet, ProcessStatus::Sleep] {
        assert_eq!(ProcessStatus::from_clap(s.to_clap()), Some(s));
    }
    assert_eq!(ProcessStatus::from_clap(1), Some(ProcessStatus::Continue));
    assert_eq!(ProcessStatus::from_clap(4), Some(ProcessStatus::Sleep));
    assert_eq!(ProcessStatus::from_clap(3), None);
    assert_eq!(ProcessStatus::from_clap(-1), None);
}

fn mono_buf(v: f32) -> ProcAudioBuffer<f32, 4> {
    ProcAudioBuffer { left: [v; 4], right: None }
}

fn stereo_buf(l: f32, r: f32) -> ProcAudioBuffer<f32, 4> {
    ProcAudioBuffer { left: [l; 4], right: Some([r; 4]) }
}

fn ports(
    main_in: Option<ProcAudioBuffer<f32, 4>>,
    main_out: Option<ProcAudioBuffer<f32, 4>>,
) -> ProcAudioPorts<f32, 4> {
    ProcAudioPorts { main_in, main_out, extra_inputs: Vec::new(), extra_outputs: Vec::new() }
}

#[test]
fn mono_in_out_in_place_writes_the_output() {
    let mut p = ports(None, Some(mono_buf(1.0)));
    match p.main_mono_in_out() {
        MonoInOutStatus::InPlace(b) => {
            assert_eq!(*b, [1.0; 4]);
            b[0] = 5.0;
        }
        _ => panic!("expected in place"),
    }
    assert_eq!(p.main_out.as_ref().unwrap().left, [5.0, 1.0, 1.0, 1.0]);
}

#[test]
fn mono_in_out_separate_and_missing() {
    let mut p = ports(Some(mono_buf(2.0)), Some(mono_buf(3.0)));
    match p.main_mono_in_out() {
        MonoInOutStatus::Separate { input, output } => {
            assert_eq!(*input, [2.0; 4]);
            output[3] = input[3];
        }
        _ => panic!("expected separate"),
    }
    assert_eq!(p.main_out.as_ref().unwrap().left, [3.0, 3.0, 3.0, 2.0]);
    assert_eq!(p.main_in.as_ref().unwrap().left, [2.0; 4]);

    let mut none = ports(Some(mono_buf(2.0)), None);
    assert!(matches!(none.main_mono_in_out(), MonoInOutStatus::NoMonoOut));
    assert!(none.main_mono_out().is_none());
}

#[test]
fn stereo_in_out_variants() {
    let mut mono_out = ports(None, Some(mono_buf(1.0)));
    assert!(matches!(mono_out.main_stereo_in_out(), StereoInOutStatus::NoStereoOut));
    assert!(mono_out.main_stereo_out().is_none());

    // A mono input beside a stereo output is processed in place.
    let mut mixed = ports(Some(mono_buf(1.0)), Some(stereo_buf(2.0, 3.0)));
    match mixed.main_stereo_in_out() {
        StereoInOutStatus::InPlace((l, r)) => {
            assert_eq!(*l, [2.0; 4]);
            assert_eq!(*r, [3.0; 4]);
            r[1] = 9.0;
        }
        _ => panic!("expected in place"),
    }
    assert_eq!(mixed.main_out.as_ref().unwrap().right, Some([3.0, 9.0, 3.0, 3.0]));

    let mut both = ports(Some(stereo_buf(4.0, 5.0)), Some(stereo_buf(6.0, 7.0)));
    match both.main_stereo_in_out() {
        StereoInOutStatus::Separate { input, output } => {
            assert_eq!(*input.0, [4.0; 4]);
            assert_eq!(*input.1, [5.0; 4]);
            output.0[0] = input.1[0];
        }
        _ => panic!("expected separate"),
    }
    assert_eq!(both.main_out.as_ref().unwrap().left, [5.0, 6.0, 6.0, 6.0]);
}

#[test]
fn main_outputs_write_through() {
    let mut p = ports(None, Some(stereo_buf(0.0, 0.0)));
    {
        let m = p.main_mono_out().unwrap();
        m[2] = 1.5;
    }
    {
        let (l, r) = p.main_stereo_out().unwrap();
        assert_eq!(l[2], 1.5);
        r[0] = -1.0;
    }
    let out = p.main_out.unwrap();
    assert_eq!(out.left, [0.0, 0.0, 1.5, 0.0]);
    assert_eq!(out.right, Some([-1.0, 0.0, 0.0, 0.0]));
}

#[test]
fn negative_steady_time_means_unknown() {
    assert_eq!(steady_time_from_clap(-1), None);
    assert_eq!(steady_time_from_clap(0), Some(0));
    assert_eq!(steady_time_from_clap(48_000), Some(48_000));
    assert_eq!(steady_time_from_clap(i64::MAX), Some(i64::MAX as u64));
}

#[test]
fn kinds_are_shown_by_short_labels() {
    assert_eq!(DebugNodeType::User.label(), "User");
    assert_eq!(DebugNodeType::StereoDelayComp.label(), "StereoDelayComp");
    assert_eq!(DebugNodeType::Root.label(), "Root");
    assert_eq!(DebugBufferType::MonoBlock.label(), "MB");
    assert_eq!(DebugBufferType::TempStereoBlock.label(), "TS");
    assert_eq!(DebugBufferType::RootOut.label(), "RO");
    assert_eq!(UniqueNodeType::Internal.label(), "Int");
    assert_eq!(UniqueNodeType::DelayComp.label(), "Dly");
    assert_eq!(UniqueProcessorType::Sum.label(), "Sum");
}

#[test]
fn node_ids_compare_by_type_and_index() {
    let a = UniqueNodeID { node_type: UniqueNodeType::Internal, index: 1, name: "gain" };
    let b = UniqueNodeID { node_type: UniqueNodeType::Internal, index: 1, name: "pan" };
    let c = UniqueNodeID { node_type: UniqueNodeType::Sum, index: 1, name: "gain" };
    assert!(a == b);
    assert!(a != c);
    assert_eq!(PanLaw::Linear, PanLaw::Linear);
}

#[test]
fn proc_info_reads_steady_time_and_frames() {
    let known = ProcInfo::from_clap(1_024, 256);
    assert_eq!(known.steady_time(), Some(1_024));
    assert_eq!(known.frames(), 256);
    let unknown = ProcInfo::from_clap(-1, 64);
    assert_eq!(unknown.steady_time(), None);
    assert_eq!(unknown.frames(), 64);
}
