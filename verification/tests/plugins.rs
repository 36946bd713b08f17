use harmoniq::clip_edit::{edit_span, playback_bounds, reconciled_selection, trim_selection, ClipChannels};
use harmoniq::factories::{
    AnalogSynthFactory, AudioEditorPluginFactory, CompressorFactory, ParametricEqFactory, SineSynthFactory,
    WestCoastLeadFactory,
};
use harmoniq::parameters::ParameterId;
use harmoniq::plugin_sdk::{str_to_fixed, HqPluginDescriptor, HQ_API_VERSION};
use harmoniq::scanner::{default_formats, parse_format, PluginFormat, ProbeResult, ScanOptions};

#[test]
fn simulation_returns_metadata() {
    let result = ProbeResult::simulate("foo.clap".into(), PluginFormat::Clap).unwrap();
    assert_eq!(result.name, "foo");
    assert!(result.vendor.is_some());
}

#[test]
fn simulation_without_stem_is_unknown() {
    let result = ProbeResult::simulate("/".into(), PluginFormat::Vst3).unwrap();
    assert_eq!(result.name, "Unknown");
    assert_eq!(result.vendor.as_deref(), Some("Simulated VST3 Vendor"));
    assert_eq!(result.category.as_deref(), Some("Utility"));
    assert!(!result.is_instrument);
    assert!(result.supports_editor);
}

#[test]
fn formats_parse_case_insensitively() {
    assert_eq!(parse_format("CLAP"), Ok(PluginFormat::Clap));
    assert_eq!(parse_format("Vst3"), Ok(PluginFormat::Vst3));
    assert_eq!(parse_format("ovst3"), Ok(PluginFormat::Ovst3));
    assert_eq!(parse_format("harmoniq"), Ok(PluginFormat::Harmoniq));
    assert_eq!(parse_format("OpenVST3"), Ok(PluginFormat::Ovst3));
    assert_eq!(parse_format("HQ"), Ok(PluginFormat::Harmoniq));
    assert_eq!(parse_format("hqplug"), Ok(PluginFormat::Harmoniq));
    assert_eq!(parse_format("AU"), Err("unsupported format: au".to_string()));
    assert_eq!(default_formats(), vec![PluginFormat::Clap, PluginFormat::Vst3, PluginFormat::Ovst3, PluginFormat::Harmoniq]);
    let options = ScanOptions::default();
    assert!(options.extra_paths.is_empty());
}

#[test]
fn trim_and_reverse_ranges() {
    let mut clip = ClipChannels::from_channels(vec![vec![0.0f32, 0.1, 0.2, 0.3, 0.4]], 0.0);
    clip.trim_to_range(1, 4);
    assert_eq!(clip.len(), 3);
    assert!((clip.sample(0, 0).unwrap() - 0.1).abs() < 1e-6);
    clip.reverse_range(0, 3);
    assert!((clip.sample(0, 0).unwrap() - 0.3).abs() < 1e-6);
}

#[test]
fn reversing_twice_restores_the_clip() {
    let mut clip = ClipChannels::from_channels(vec![vec![1, 2, 3, 4, 5], vec![6, 7]], 0);
    assert_eq!(clip.len(), 5);
    assert_eq!(clip.sample(1, 4), Some(0));
    clip.reverse_range(1, 4);
    assert_eq!(clip.sample(0, 1), Some(4));
    clip.reverse_range(1, 4);
    let first: Vec<i32> = (0..5).map(|i| clip.sample(0, i).unwrap()).collect();
    assert_eq!(first, vec![1, 2, 3, 4, 5]);
    assert_eq!(clip.clamp_range(3, 99), Some((3, 5)));
    assert_eq!(clip.clamp_range(4, 4), None);
    assert_eq!(clip.sample(2, 0), None);
}

#[test]
fn selections_and_playback_ranges() {
    assert_eq!(trim_selection(Some((2, 5))), Ok((2, 5)));
    assert_eq!(trim_selection(Some((5, 5))), Err("Select a region before trimming".to_string()));
    assert_eq!(trim_selection(None), Err("Select a region before trimming".to_string()));
    assert_eq!(reconciled_selection(10, Some((2, 20))), Some((2, 10)));
    assert_eq!(reconciled_selection(10, Some((12, 20))), None);
    assert_eq!(reconciled_selection(0, Some((0, 1))), None);
    assert_eq!(playback_bounds(10, None, true), (0, 10));
    let _ = edit_span(10, Some((3, 7)));
}

#[test]
fn stub_descriptor_is_padded() {
    let d = HqPluginDescriptor::stub();
    assert_eq!(d.abi_version, HQ_API_VERSION);
    assert_eq!(&d.name[..8], b"HQ Stub\0");
    assert!(d.name[7..].iter().all(|b| *b == 0));
    assert_eq!(&d.vendor[..9], b"Harmoniq\0");
    assert_eq!((d.audio_inputs, d.audio_outputs, d.parameters), (2, 2, 0));
}

#[test]
fn fixed_strings_are_cut_or_padded() {
    let short: [u8; 4] = str_to_fixed("Harmoniq");
    assert_eq!(&short, b"Harm");
    let long: [u8; 10] = str_to_fixed("Hq");
    assert_eq!(&long, b"Hq\0\0\0\0\0\0\0\0");
}

#[test]
fn parameter_ids_compare_by_text() {
    let a = ParameterId::new("gain".into());
    let b = ParameterId::new("gain".into());
    assert_eq!(a.as_str(), "gain");
    assert!(a == b);
    assert!(a != ParameterId::new("pan".into()));
}

#[test]
fn factories_describe_their_plugins() {
    let d = ParametricEqFactory.descriptor();
    assert_eq!((d.id.as_str(), d.name.as_str(), d.vendor.as_str()), ("harmoniq.effects.parametric_eq", "Parametric EQ", "Harmoniq Labs"));
    assert!(d.description.is_none());
    assert_eq!(CompressorFactory.descriptor().id, "harmoniq.effects.compressor");
    assert_eq!(AudioEditorPluginFactory.descriptor().name, "Edison Audio Editor");
    assert_eq!(SineSynthFactory.descriptor().description.as_deref(), Some("Basic anti-aliased sine oscillator for testing"));
    assert_eq!(AnalogSynthFactory.descriptor().description.as_deref(), Some("Basic subtractive synthesizer"));
    assert_eq!(WestCoastLeadFactory.descriptor().id, "harmoniq.westcoast");
}
