use harmoniq::profiling::SpanTimer;
use harmoniq::rack::convert::steps_to_midi;
use harmoniq::rack::state::{Channel, ChannelKind, RackState};
use harmoniq::rack::ui::{instrument_label, kind_badge, remove_listed_channels, reorder_channel, short_uid, step_grid_lane};

fn channel(id: u32, kind: ChannelKind) -> Channel {
    Channel::new(id, format!("ch{id}"), kind, None)
}

fn ids(channels: &[Channel]) -> Vec<u32> {
    channels.iter().map(|c| c.id).collect()
}

#[test]
fn short_uids_keep_the_last_segment() {
    assert_eq!(short_uid("vst3::acme::Piano"), "Piano");
    assert_eq!(short_uid("plain"), "plain");
    assert_eq!(short_uid("trailing::"), "");
    assert_eq!(short_uid("a:b"), "a:b");
}

#[test]
fn labels_and_badges_follow_the_channel_kind() {
    let mut inst = channel(1, ChannelKind::Instrument);
    assert_eq!(instrument_label(&inst), "No instrument loaded");
    assert_eq!(kind_badge(&inst), "Instrument");
    inst.plugin_uid = Some("clap::vendor::Lead".into());
    assert_eq!(instrument_label(&inst), "Lead");
    assert_eq!(kind_badge(&inst), "Lead");
    inst.instrument_name = Some("My Lead".into());
    assert_eq!(instrument_label(&inst), "My Lead");
    let sample = channel(2, ChannelKind::Sample);
    assert_eq!(instrument_label(&sample), "No sample loaded");
    assert_eq!(kind_badge(&sample), "Sample");
    let auto = channel(3, ChannelKind::Automation);
    assert_eq!(instrument_label(&auto), "Automation");
    assert_eq!(kind_badge(&auto), "Automation");
}

#[test]
fn reordering_moves_one_channel_and_keeps_the_others() {
    let mut channels = vec![
        channel(1, ChannelKind::Instrument),
        channel(2, ChannelKind::Instrument),
        channel(3, ChannelKind::Instrument),
    ];
    assert!(reorder_channel(&mut channels, 3, 0));
    assert_eq!(ids(&channels), vec![3, 1, 2]);
    assert!(reorder_channel(&mut channels, 3, 99));
    assert_eq!(ids(&channels), vec![1, 2, 3]);
    assert!(!reorder_channel(&mut channels, 1, 1));
    assert_eq!(ids(&channels), vec![1, 2, 3]);
    assert!(!reorder_channel(&mut channels, 9, 0));
    assert!(reorder_channel(&mut channels, 1, 2));
    assert_eq!(ids(&channels), vec![2, 1, 3]);
}

#[test]
fn listed_channels_are_removed_in_order() {
    let mut channels: Vec<Channel> = (1..=5).map(|i| channel(i, ChannelKind::Sample)).collect();
    remove_listed_channels(&mut channels, &vec![2, 4, 7]);
    assert_eq!(ids(&channels), vec![1, 3, 5]);
}

#[test]
fn step_grid_lane_is_sized_to_the_grid_and_kept() {
    let mut ch = channel(1, ChannelKind::Instrument);
    ch.steps_per_bar = 8;
    {
        let lane = step_grid_lane(&mut ch, 3);
        assert_eq!(lane.len(), 8);
        lane[2].on = true;
    }
    assert!(ch.steps.get(&3).unwrap()[2].on);
    ch.steps_per_bar = 4;
    let lane = step_grid_lane(&mut ch, 3);
    assert_eq!(lane.len(), 4);
    assert!(lane[2].on);
}

#[test]
fn steps_become_one_bar_midi_clip() {
    let mut rack = RackState::new_default();
    let ch = rack.add_channel("Keys".into(), ChannelKind::Instrument, None);
    let current = rack.current_pattern;
    {
        let lane = rack.steps_mut(current, ch);
        lane[0].on = true;
        lane[4].on = true;
        lane[4].velocity = 0;
        lane[15].on = true;
        lane[15].velocity = 127;
    }
    let clip = steps_to_midi(&rack, current, ch).unwrap();
    assert_eq!(clip.ppq, 480);
    let notes: Vec<(u32, u32, i8, u8)> =
        clip.notes.iter().map(|n| (n.start_ticks, n.length_ticks, n.key, n.velocity)).collect();
    assert_eq!(notes, vec![(0, 120, 60, 100), (480, 120, 60, 1), (1800, 120, 60, 127)]);
    assert!(steps_to_midi(&rack, current + 1, ch).is_none());
    assert!(steps_to_midi(&rack, current, ch + 1).is_none());
}

#[test]
fn thirty_second_grid_uses_sixty_tick_steps() {
    let mut rack = RackState::new_default();
    let ch = rack.add_channel("Hats".into(), ChannelKind::Sample, None);
    rack.channels[0].steps_per_bar = 32;
    let current = rack.current_pattern;
    rack.steps_mut(current, ch)[1].on = true;
    let clip = steps_to_midi(&rack, current, ch).unwrap();
    assert_eq!(clip.notes.len(), 1);
    assert_eq!((clip.notes[0].start_ticks, clip.notes[0].length_ticks), (60, 60));
}

#[test]
fn automation_channels_have_no_clip() {
    let mut rack = RackState::new_default();
    let ch = rack.add_channel("Auto".into(), ChannelKind::Automation, None);
    let current = rack.current_pattern;
    rack.steps_mut(current, ch);
    assert!(steps_to_midi(&rack, current, ch).is_none());
}

#[test]
fn span_timer_measures_a_span() {
    let timer = SpanTimer::new("render");
    let elapsed = timer.finish();
    assert!(elapsed.as_secs() < 60);
}
