use harmoniq::rack::channel::{Channel, Rack};
use harmoniq::rack::pattern::{Pattern, PatternLaneRef, PianoRoll, PianoRollNote, Step, StepLane, StepSeq};
use harmoniq::rack::schedule::{ScheduledEvent, Scheduler};

/// Samples per sixteenth note, computed as the engine does from tempo and rate.
fn step_duration_samples(tempo: f32, sample_rate: f32) -> u64 {
    let beats_per_second = tempo / 60.0;
    let seconds_per_beat = 1.0 / beats_per_second;
    let seconds = seconds_per_beat * (1.0 / 4.0);
    (seconds * sample_rate) as u64
}

fn velocity(v: f32) -> u32 {
    v.to_bits()
}

fn build_rack_with_channel() -> Rack {
    let mut rack = Rack::new();
    let mut channel = Channel::new(1, "Test".into());
    channel.steps = StepSeq {
        lanes: vec![StepLane {
            steps: vec![
                Step { active: true, velocity_bits: velocity(1.0) },
                Step { active: false, velocity_bits: velocity(1.0) },
                Step { active: true, velocity_bits: velocity(0.5) },
                Step { active: false, velocity_bits: velocity(1.0) },
            ],
        }],
        steps_per_lane: 4,
    };
    channel.piano_roll.notes.push(PianoRollNote {
        pitch: 65,
        start_samples: 88,
        length_samples: 10,
        velocity_bits: velocity(0.8),
    });
    rack.channels.push(channel);
    let mut pattern = Pattern::new(1, "Pattern 1".into());
    pattern.lanes.push(PatternLaneRef::new(1));
    rack.patterns.push(pattern);
    rack
}

fn sample_of(event: &ScheduledEvent) -> u64 {
    match event {
        ScheduledEvent::NoteOn { sample, .. } => *sample,
        ScheduledEvent::NoteOff { sample, .. } => *sample,
    }
}

#[test]
fn swing_offsets_even_steps_only() {
    let rack = build_rack_with_channel();
    let scheduler = Scheduler::new(&rack, step_duration_samples(120.0, 48_000.0), 0);
    let events = scheduler.collect_for_pattern(1);
    assert!(events.iter().any(|event| matches!(
        event,
        ScheduledEvent::NoteOn {
            sample,
            ..
        } if *sample > 0
    )));
}

#[test]
fn piano_roll_notes_are_included() {
    let mut rack = build_rack_with_channel();
    rack.channels[0].piano_roll.notes.push(PianoRollNote {
        pitch: 70,
        start_samples: 1000,
        length_samples: 100,
        velocity_bits: velocity(1.0),
    });
    let scheduler = Scheduler::new(&rack, step_duration_samples(120.0, 48_000.0), 0);
    let events = scheduler.collect_for_pattern(1);
    assert_eq!(
        events
            .iter()
            .filter(|event| matches!(event, ScheduledEvent::NoteOn { .. }))
            .count(),
        4
    );
}

#[test]
fn sixteenth_at_120_bpm_and_48k_is_6000_samples() {
    assert_eq!(step_duration_samples(120.0, 48_000.0), 6000);
}

#[test]
fn events_come_out_in_sample_order() {
    let rack = build_rack_with_channel();
    let scheduler = Scheduler::new(&rack, 6000, 0);
    let events = scheduler.collect_for_pattern(1);
    let expected = vec![
        ScheduledEvent::NoteOn { channel_id: 1, pitch: 60, velocity_bits: velocity(1.0), sample: 0 },
        ScheduledEvent::NoteOn { channel_id: 1, pitch: 65, velocity_bits: velocity(0.8), sample: 88 },
        ScheduledEvent::NoteOff { channel_id: 1, pitch: 65, sample: 98 },
        ScheduledEvent::NoteOff { channel_id: 1, pitch: 60, sample: 6000 },
        ScheduledEvent::NoteOn { channel_id: 1, pitch: 60, velocity_bits: velocity(0.5), sample: 12000 },
        ScheduledEvent::NoteOff { channel_id: 1, pitch: 60, sample: 18000 },
    ];
    assert_eq!(events, expected);
    assert!(events.windows(2).all(|w| sample_of(&w[0]) <= sample_of(&w[1])));
}

#[test]
fn swing_delays_odd_steps() {
    let mut rack = build_rack_with_channel();
    rack.channels[0].piano_roll.notes.clear();
    rack.channels[0].steps.lanes[0].steps[1].active = true;
    let scheduler = Scheduler::new(&rack, 100, 25);
    let events = scheduler.collect_for_pattern(1);
    let starts: Vec<u64> = events
        .iter()
        .filter(|e| matches!(e, ScheduledEvent::NoteOn { .. }))
        .map(sample_of)
        .collect();
    assert_eq!(starts, vec![0, 125, 200]);
}

#[test]
fn equal_samples_keep_their_collection_order() {
    let mut rack = Rack::new();
    let mut channel = Channel::new(5, "Drums".into());
    channel.steps = StepSeq { lanes: vec![], steps_per_lane: 16 };
    channel.piano_roll.notes = vec![
        PianoRollNote { pitch: 36, start_samples: 0, length_samples: 10, velocity_bits: 1 },
        PianoRollNote { pitch: 38, start_samples: 10, length_samples: 5, velocity_bits: 2 },
    ];
    rack.channels.push(channel);
    let mut pattern = Pattern::new(9, "Beat".into());
    pattern.lanes.push(PatternLaneRef::new(5));
    rack.patterns.push(pattern);
    let events = Scheduler::new(&rack, 1, 0).collect_for_pattern(9);
    assert_eq!(
        events,
        vec![
            ScheduledEvent::NoteOn { channel_id: 5, pitch: 36, velocity_bits: 1, sample: 0 },
            ScheduledEvent::NoteOff { channel_id: 5, pitch: 36, sample: 10 },
            ScheduledEvent::NoteOn { channel_id: 5, pitch: 38, velocity_bits: 2, sample: 10 },
            ScheduledEvent::NoteOff { channel_id: 5, pitch: 38, sample: 15 },
        ]
    );
}

#[test]
fn unknown_pattern_or_channel_gives_no_events() {
    let mut rack = build_rack_with_channel();
    let scheduler = Scheduler::new(&rack, 6000, 0);
    assert!(scheduler.collect_for_pattern(2).is_empty());
    rack.patterns[0].lanes[0].channel_id = 77;
    let scheduler = Scheduler::new(&rack, 6000, 0);
    assert!(scheduler.collect_for_pattern(1).is_empty());
}

#[test]
fn new_channel_has_default_grid() {
    let channel = Channel::new(3, "Bass".into());
    assert_eq!(channel.steps.lanes.len(), 4);
    assert_eq!(channel.steps.steps_per_lane, 16);
    assert!(channel.steps.lanes.iter().all(|l| l.steps.len() == 16));
    let step = channel.steps.lane(0).unwrap().step(15).unwrap();
    assert!(!step.active);
    assert_eq!(f32::from_bits(step.velocity_bits), 1.0);
    assert!(channel.steps.lane(4).is_none());
    assert!(channel.steps.lane(0).unwrap().step(16).is_none());
    assert!(channel.inserts.iter().all(|slot| slot.is_none()));
    assert_eq!(channel.color_bits, [1.0f32.to_bits(); 4]);
    assert!(channel.is_instrument);
}

#[test]
fn find_returns_the_first_match() {
    let mut rack = Rack::new();
    rack.channels.push(Channel::new(2, "first".into()));
    rack.channels.push(Channel::new(2, "second".into()));
    assert_eq!(rack.find_channel(2).unwrap().name, "first");
    assert!(rack.find_channel(3).is_none());
    rack.patterns.push(Pattern::new(4, "A".into()));
    rack.patterns.push(Pattern::new(4, "B".into()));
    assert_eq!(rack.find_pattern(4).unwrap().name, "A");
    assert!(rack.find_pattern(1).is_none());
}

#[test]
fn piano_roll_keeps_notes_ordered_by_start() {
    let mut roll = PianoRoll::default();
    let note = |pitch: u8, start: u64| PianoRollNote {
        pitch,
        start_samples: start,
        length_samples: 1,
        velocity_bits: 0,
    };
    roll.add_note(note(60, 300));
    roll.add_note(note(62, 100));
    roll.add_note(note(64, 300));
    roll.add_note(note(65, 0));
    let order: Vec<(u8, u64)> = roll.notes.iter().map(|n| (n.pitch, n.start_samples)).collect();
    assert_eq!(order, vec![(65, 0), (62, 100), (60, 300), (64, 300)]);
}

#[test]
fn step_with_velocity_is_active() {
    let step = Step::with_velocity(0.25f32.to_bits());
    assert!(step.active);
    assert_eq!(f32::from_bits(step.velocity_bits), 0.25);
    let off = Step::default();
    assert!(!off.active);
    assert_eq!(StepLane::default().steps.len(), 16);
}
