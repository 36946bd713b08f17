use harmoniq::color::{hex_color_would_split_char, parse_hex_color, Rgba8};
use harmoniq::clients::{ClientRegistry, DEFAULT_MAX_CLIENTS};
use harmoniq::io::{AudioBackend, BackendError, CpalBackend, StreamConfig};
use harmoniq::mixer_skin::{HexColor, MixerPalette, MixerSkin, MixerSkinColors};
use harmoniq::perf_hud::{
    perf_hud_card_visible, perf_hud_end_frame, perf_hud_on_activity, perf_hud_tick, PerfHudState, PERF_HUD_IDLE_MS,
};
use harmoniq::project::{upgrade_version, ProjectVersion, CURRENT_PROJECT_VERSION};
use harmoniq::rt_event::RtEvent;
use harmoniq::rt_queue::rt_queue;
use harmoniq::shapes::{FilterMode, LfoShape, LfoWaveform};
use harmoniq::simd::Simd;
use harmoniq::text::{decimal_string, prefixed_decimal};
use harmoniq::widgets::{ToggleParameter, WidgetBinding, WidgetId};

#[test]
fn hex_colors_parse_with_and_without_alpha() {
    assert_eq!(parse_hex_color("#ff8000"), Ok(Rgba8 { r: 255, g: 128, b: 0, a: 255 }));
    assert_eq!(parse_hex_color("  102030c0 "), Ok(Rgba8 { r: 16, g: 32, b: 48, a: 192 }));
    assert_eq!(parse_hex_color("#AbCdEf"), Ok(Rgba8 { r: 0xab, g: 0xcd, b: 0xef, a: 255 }));
}

#[test]
fn hex_color_errors_name_the_component() {
    assert_eq!(
        parse_hex_color("#12345"),
        Err("expected hex color in RRGGBB or RRGGBBAA format, got '#12345'".to_string())
    );
    assert_eq!(parse_hex_color("zz0000"), Err("invalid red component in color 'zz0000'".to_string()));
    assert_eq!(parse_hex_color("00zz00"), Err("invalid green component in color '00zz00'".to_string()));
    assert_eq!(parse_hex_color("0000zz"), Err("invalid blue component in color '0000zz'".to_string()));
    assert_eq!(parse_hex_color("zz0000zz"), Err("invalid alpha component in color 'zz0000zz'".to_string()));
    assert_eq!(parse_hex_color("+f0000"), Ok(Rgba8 { r: 15, g: 0, b: 0, a: 255 }));
}

#[test]
fn perf_hud_hides_after_idle_time_unless_hovered() {
    let mut st = PerfHudState::default();
    st.visible = true;
    perf_hud_tick(&mut st, PERF_HUD_IDLE_MS + 1);
    assert!(perf_hud_card_visible(&st, true));
    perf_hud_end_frame(&mut st, true, false);
    assert!(st.visible);
    perf_hud_end_frame(&mut st, false, false);
    assert!(!st.visible);
    st.visible = true;
    perf_hud_on_activity(&mut st);
    assert_eq!(st.last_activity_ms, 0);
    perf_hud_end_frame(&mut st, false, false);
    assert!(st.visible);
    perf_hud_end_frame(&mut st, false, true);
    assert!(!st.visible);
    perf_hud_tick(&mut st, u64::MAX);
    perf_hud_tick(&mut st, 5);
    assert_eq!(st.last_activity_ms, u64::MAX);
}

#[test]
fn project_versions_upgrade_to_current() {
    assert_eq!(ProjectVersion::default(), ProjectVersion(CURRENT_PROJECT_VERSION));
    assert_eq!(upgrade_version(ProjectVersion(0)), ProjectVersion(1));
    assert_eq!(upgrade_version(ProjectVersion(7)), ProjectVersion(7));
}

#[test]
fn rt_event_kinds_have_fixed_ids() {
    assert_eq!(RtEvent::Xrun { count: 3 }.kind_id(), 1);
    assert_eq!(RtEvent::EngineLoad { pct: 50 }.kind_id(), 2);
    assert_eq!(RtEvent::MaxBlockMicros { us: 10 }.kind_id(), 3);
}

#[test]
fn rt_queue_delivers_in_order_and_rejects_when_full() {
    let (mut tx, mut rx) = rt_queue::<u32>(2);
    assert!(tx.try_send(1).is_ok());
    assert!(tx.try_send(2).is_ok());
    assert_eq!(tx.try_send(3), Err(3));
    assert_eq!(rx.try_recv(), Some(1));
    assert_eq!(rx.try_recv(), Some(2));
    assert_eq!(rx.try_recv(), None);
}

#[test]
fn shapes_select_modes() {
    assert_eq!(LfoShape::default(), LfoShape::Sine);
    assert_eq!(LfoShape::Triangle.to_waveform(), LfoWaveform::Triangle);
    assert_eq!(FilterMode::from_index(1), FilterMode::BandPass);
    assert_eq!(FilterMode::from_index(2), FilterMode::HighPass);
    assert_eq!(FilterMode::from_index(0), FilterMode::LowPass);
    assert_eq!(FilterMode::from_index(9), FilterMode::LowPass);
}

#[test]
fn simd_lanes_round_trip() {
    let v: Simd<i32, 4> = Simd::from_array([1, 2, 3, 4]);
    assert_eq!(v.to_array(), [1, 2, 3, 4]);
    let s: Simd<u8, 3> = Simd::splat(7);
    assert_eq!(s.to_array(), [7, 7, 7]);
    let w: Simd<u16, 2> = Simd::from_slice(&[9, 8, 7]);
    assert_eq!(w.as_array(), &[9, 8]);
    let mut out = [0u16; 4];
    w.write_to_slice(&mut out);
    assert_eq!(out, [9, 8, 0, 0]);
}

#[test]
fn decimal_rendering() {
    assert_eq!(decimal_string(0), "0");
    assert_eq!(decimal_string(1234567890), "1234567890");
    assert_eq!(decimal_string(u64::MAX), u64::MAX.to_string());
    assert_eq!(prefixed_decimal("Pattern ", 12), "Pattern 12");
}

#[test]
fn widget_ids_and_bindings_keep_their_text() {
    assert_eq!(WidgetId::new("knob.gain".into()).as_str(), "knob.gain");
    assert_eq!(WidgetBinding::new("gain".into()).parameter(), "gain");
    let mut flag = false;
    {
        let mut toggle = ToggleParameter::new(&mut flag);
        *toggle.value() = true;
    }
    assert!(flag);
}

#[test]
fn backend_errors_have_messages() {
    assert_eq!(
        BackendError::DeviceNotFound("hw:1".into()).message(),
        "device not found: hw:1"
    );
    assert_eq!(BackendError::UnsupportedConfiguration.message(), "stream configuration unsupported");
    assert_eq!(BackendError::Backend("boom".into()).message(), "backend error: boom");
    let cfg = StreamConfig::default();
    assert_eq!((cfg.sample_rate, cfg.channels, cfg.block_size), (48_000, 2, 256));
}

#[test]
fn mixer_skin_overrides_listed_colours_only() {
    let grey = Rgba8 { r: 40, g: 40, b: 40, a: 255 };
    let mut palette = MixerPalette {
        mixer_strip_bg: grey,
        mixer_strip_selected: grey,
        mixer_strip_solo: grey,
        mixer_strip_muted: grey,
        mixer_strip_border: grey,
        mixer_strip_header: grey,
        mixer_strip_header_selected: grey,
        mixer_slot_bg: grey,
        mixer_slot_active: grey,
        mixer_slot_border: grey,
        mixer_toggle_active: grey,
        mixer_toggle_inactive: grey,
        mixer_toggle_text: grey,
        text_primary: grey,
        text_muted: grey,
        accent: grey,
        accent_alt: grey,
    };
    let mut skin = MixerSkin::default();
    assert!(skin.is_empty());
    skin.apply(&mut palette);
    assert_eq!(palette.accent, grey);
    let red = HexColor::parse("#ff0000").unwrap();
    assert_eq!(red, HexColor(Rgba8 { r: 255, g: 0, b: 0, a: 255 }));
    skin.colors = MixerSkinColors { accent: Some(red), strip_bg: Some(HexColor::parse("00ff0080").unwrap()), ..MixerSkinColors::default() };
    assert!(!skin.is_empty());
    skin.apply(&mut palette);
    assert_eq!(palette.accent, Rgba8 { r: 255, g: 0, b: 0, a: 255 });
    assert_eq!(palette.mixer_strip_bg, Rgba8 { r: 0, g: 255, b: 0, a: 128 });
    assert_eq!(palette.accent_alt, grey);
    let once = palette;
    skin.apply(&mut palette);
    assert_eq!(palette, once);
    assert!(HexColor::parse("nope").is_err());
}

#[test]
fn stand_in_backend_has_no_devices() {
    let backend = CpalBackend::new();
    assert_eq!(backend.name(), "cpal (stub)");
    assert!(backend.devices().unwrap().is_empty());
    match backend.default_output() {
        Err(e) => assert_eq!(e.message(), "backend error: cpal backend not available in this build"),
        Ok(_) => panic!("no default output expected"),
    }
}

#[test]
fn clients_get_increasing_ids_until_full() {
    let mut registry = ClientRegistry::new(DEFAULT_MAX_CLIENTS);
    let mut ids = Vec::new();
    while registry.has_room() {
        ids.push(registry.connect());
    }
    assert_eq!(ids, vec![1, 2, 3, 4]);
    assert_eq!(registry.client_ids, ids);
    assert_eq!(registry.next_client_id, 5);
    assert!(!ClientRegistry::new(0).has_room());
}

#[test]
fn widget_ids_compare_by_text() {
    assert!(WidgetId::new("a".into()) == WidgetId::new("a".into()));
    assert!(WidgetId::new("a".into()) != WidgetId::new("b".into()));
}

#[test]
fn split_characters_are_detected_before_parsing() {
    assert!(!hex_color_would_split_char("#ff8000"));
    assert!(!hex_color_would_split_char("#12345"));
    assert!(hex_color_would_split_char("#a\u{e9}bcd"));
    assert!(!hex_color_would_split_char("0000\u{e9}ff"));
    assert_eq!(parse_hex_color("0000\u{e9}ff"), Err("invalid blue component in color '0000\u{e9}ff'".to_string()));
    assert!(!hex_color_would_split_char("zz\u{e9}ab"));
    assert!(!hex_color_would_split_char("ffffff\u{e9}"));
    assert!(hex_color_would_split_char("fffff\u{e9}f"));
}
