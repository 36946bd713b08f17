use harmoniq::rack::state::{ChannelKind, MidiRouting, PluginFormat, RackState};

#[test]
fn instrument_chain_supports_zones_and_bypass() {
    let mut rack = RackState::new_default();
    let channel = rack.add_channel("Keys".into(), ChannelKind::Instrument, None);
    let slot_id = rack
        .add_instrument_slot(channel, "Piano".into(), "uid://piano".into(), PluginFormat::Clap)
        .unwrap();

    rack.configure_instrument_slot(
        channel,
        slot_id,
        Some(true),
        Some(Some(2)),
        Some((21, 108)),
        Some((10, 120)),
        Some(MidiRouting {
            input_channel: Some(1),
            output_channel: Some(1),
        }),
    );

    let channel_ref = rack.channels.iter().find(|c| c.id == channel).unwrap();
    let slot = channel_ref
        .instrument_chain
        .iter()
        .find(|s| s.id == slot_id)
        .unwrap();
    assert!(slot.bypass);
    assert_eq!(slot.oversampling, Some(2));
    assert_eq!(slot.key_range, (21, 108));
    assert_eq!(slot.velocity_range, (10, 120));
    assert_eq!(slot.midi_routing.input_channel, Some(1));
}

#[test]
fn cloning_pattern_copies_steps_per_channel() {
    let mut rack = RackState::new_default();
    let instrument = rack.add_channel("Keys".into(), ChannelKind::Instrument, None);
    let sample = rack.add_channel("Snare".into(), ChannelKind::Sample, None);

    let current = rack.current_pattern;
    let steps = rack.steps_mut(current, instrument);
    steps[0].on = true;
    steps[1].velocity = 64;

    let current = rack.current_pattern;
    let sample_steps = rack.steps_mut(current, sample);
    sample_steps[3].on = true;

    let current = rack.current_pattern;
    let cloned_id = rack.clone_pattern(current).expect("clone succeeds");

    assert_eq!(rack.patterns.len(), 2);
    assert_eq!(rack.current_pattern, cloned_id);

    let instrument_steps = rack
        .channels
        .iter()
        .find(|c| c.id == instrument)
        .and_then(|c| c.steps.get(&cloned_id))
        .expect("instrument steps cloned");
    assert!(instrument_steps[0].on);
    assert_eq!(instrument_steps[1].velocity, 64);

    let sample_steps = rack
        .channels
        .iter()
        .find(|c| c.id == sample)
        .and_then(|c| c.steps.get(&cloned_id))
        .expect("sample steps cloned");
    assert!(sample_steps[3].on);
}

#[test]
fn new_default_has_one_selected_pattern() {
    let rack = RackState::new_default();
    assert_eq!(rack.patterns.len(), 1);
    assert_eq!(rack.patterns[0].id, 1);
    assert_eq!(rack.patterns[0].name, "Pattern 1");
    assert_eq!(rack.patterns[0].bars, 1);
    assert_eq!(rack.current_pattern, 1);
    assert!(rack.channels.is_empty());
}

#[test]
fn added_patterns_get_fresh_ids_and_names() {
    let mut rack = RackState::new_default();
    let second = rack.add_pattern();
    let third = rack.add_pattern();
    assert_eq!(second, 2);
    assert_eq!(third, 3);
    assert_eq!(rack.patterns[2].name, "Pattern 3");
    assert_eq!(rack.current_pattern, 3);
}

#[test]
fn next_then_previous_returns_to_the_pattern() {
    let mut rack = RackState::new_default();
    rack.add_pattern();
    rack.add_pattern();
    rack.select_pattern(2);
    rack.select_next_pattern();
    assert_eq!(rack.current_pattern, 3);
    rack.select_previous_pattern();
    assert_eq!(rack.current_pattern, 2);
    rack.select_pattern(3);
    rack.select_next_pattern();
    assert_eq!(rack.current_pattern, 1);
    rack.select_previous_pattern();
    assert_eq!(rack.current_pattern, 3);
}

#[test]
fn selecting_an_unknown_pattern_changes_nothing() {
    let mut rack = RackState::new_default();
    rack.select_pattern(42);
    assert_eq!(rack.current_pattern, 1);
    assert!(rack.clone_pattern(42).is_none());
    assert_eq!(rack.patterns.len(), 1);
}

#[test]
fn channels_get_increasing_ids_and_can_be_removed() {
    let mut rack = RackState::new_default();
    let a = rack.add_channel("A".into(), ChannelKind::Instrument, None);
    let b = rack.add_channel("B".into(), ChannelKind::Sample, None);
    let c = rack.add_channel("C".into(), ChannelKind::Automation, None);
    assert_eq!((a, b, c), (1, 2, 3));
    rack.remove_channel(b);
    let ids: Vec<u32> = rack.channels.iter().map(|ch| ch.id).collect();
    assert_eq!(ids, vec![1, 3]);
    let d = rack.add_channel("D".into(), ChannelKind::Instrument, None);
    assert_eq!(d, 4);
}

#[test]
fn steps_mut_prepares_a_lane_of_default_steps() {
    let mut rack = RackState::new_default();
    let ch = rack.add_channel("Kick".into(), ChannelKind::Sample, None);
    let current = rack.current_pattern;
    let lane = rack.steps_mut(current, ch);
    assert_eq!(lane.len(), 16);
    assert!(lane.iter().all(|s| !s.on && s.velocity == 100 && s.pan == 0 && s.shift_ticks == 0));
}

#[test]
fn attaching_a_sample_names_the_channel_after_the_file() {
    let mut rack = RackState::new_default();
    let ch = rack.add_channel("Empty".into(), ChannelKind::Instrument, None);
    rack.attach_sample_to_channel(ch, "/samples/kick_01.wav".into());
    let channel = rack.channels.iter().find(|c| c.id == ch).unwrap();
    assert_eq!(channel.kind, ChannelKind::Sample);
    assert_eq!(channel.name, "Empty");
    assert_eq!(channel.instrument_name.as_deref(), Some("kick_01"));
    assert_eq!(channel.plugin_uid.as_deref(), Some("/samples/kick_01.wav"));
}

#[test]
fn attaching_a_plugin_instrument_sets_the_instrument() {
    let mut rack = RackState::new_default();
    let ch = rack.add_channel("Lead".into(), ChannelKind::Sample, None);
    rack.attach_plugin_instrument(ch, 7, "harmoniq.analog".into(), "Analog Synth".into());
    let channel = rack.channels.iter().find(|c| c.id == ch).unwrap();
    assert_eq!(channel.instrument_id, Some(7));
    assert_eq!(channel.instrument_name.as_deref(), Some("Analog Synth"));
    assert_eq!(channel.plugin_uid.as_deref(), Some("harmoniq.analog"));
}

#[test]
fn instrument_slots_get_fresh_ids() {
    let mut rack = RackState::new_default();
    let ch = rack.add_channel("Keys".into(), ChannelKind::Instrument, None);
    let first = rack
        .add_instrument_slot(ch, "Piano".into(), "uid://piano".into(), PluginFormat::Vst3)
        .unwrap();
    let second = rack
        .add_instrument_slot(ch, "Pad".into(), "uid://pad".into(), PluginFormat::Clap)
        .unwrap();
    assert_eq!((first, second), (1, 2));
    assert!(rack
        .add_instrument_slot(99, "X".into(), "uid://x".into(), PluginFormat::Clap)
        .is_none());
}
