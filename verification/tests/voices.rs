use harmoniq::voices::{choose_voice, matching_voices, steal_voice, NoteStack, VoiceBank, VoiceCommand, MAX_VOICES};

#[test]
fn choose_voice_prefers_first_free_then_oldest() {
    let active = [true, false, true, false];
    let ages = [5, 1, 3, 0];
    assert_eq!(choose_voice(&active, &ages, 4), 1);
    let all = [true, true, true, true];
    assert_eq!(choose_voice(&all, &[5, 2, 2, 9], 4), 1);
    assert_eq!(choose_voice(&all, &[5, 2, 2, 1], 3), 1);
    assert_eq!(choose_voice(&all, &[5, 2, 2, 1], 8), 3);
}

#[test]
fn steal_voice_prefers_first_silent_then_longest() {
    assert_eq!(steal_voice(&[true, true, false], &[1, 2, 3], 3), 2);
    assert_eq!(steal_voice(&[true, true, true], &[4, 9, 9], 3), 1);
    assert_eq!(steal_voice(&[true, true, false], &[4, 9, 9], 2), 1);
}

#[test]
fn matching_voices_lists_voices_of_the_note() {
    let notes = [Some(60), None, Some(60), Some(62), Some(60)];
    assert_eq!(matching_voices(&notes, 60, 5), vec![0, 2, 4]);
    assert_eq!(matching_voices(&notes, 60, 3), vec![0, 2]);
    assert!(matching_voices(&notes, 61, 5).is_empty());
}

#[test]
fn note_stack_push_then_remove_restores_it() {
    let mut stack: NoteStack<u8> = NoteStack::new();
    stack.push(60, 100);
    stack.push(64, 90);
    stack.push(60, 10);
    assert_eq!(stack.top(), Some((64, 90)));
    stack.push(67, 80);
    let removed = stack.remove(67).unwrap();
    assert!(removed.was_top);
    assert_eq!(removed.new_top, Some((64, 90)));
    let removed = stack.remove(60).unwrap();
    assert!(!removed.was_top);
    assert_eq!(removed.new_top, Some((64, 90)));
    assert!(stack.remove(61).is_none());
    assert!(stack.contains(64));
    stack.clear();
    assert_eq!(stack.top(), None);
}

#[test]
fn note_stack_holds_at_most_max_voices() {
    let mut stack: NoteStack<u8> = NoteStack::new();
    for n in 0..(MAX_VOICES as u8 + 3) {
        stack.push(n, 1);
    }
    assert_eq!(stack.top(), Some((MAX_VOICES as u8 - 1, 1)));
}

#[test]
fn mono_bank_glides_and_returns_to_held_note() {
    let mut bank: VoiceBank<u8> = VoiceBank::new();
    let silent = [false; MAX_VOICES];
    match bank.note_on(60, 100, 1, &silent) {
        VoiceCommand::Start { voice, note, velocity } => assert_eq!((voice, note, velocity), (0, 60, 100)),
        _ => panic!("expected a start"),
    }
    let mut sounding = [false; MAX_VOICES];
    sounding[0] = true;
    match bank.note_on(64, 90, 1, &sounding) {
        VoiceCommand::Glide { voice, note, .. } => assert_eq!((voice, note), (0, 64)),
        _ => panic!("expected a glide"),
    }
    let cmds = bank.note_off(64, 1);
    assert_eq!(cmds.len(), 1);
    match &cmds[0] {
        VoiceCommand::Glide { voice, note, velocity } => assert_eq!((*voice, *note, *velocity), (0, 60, 100)),
        _ => panic!("expected a glide back"),
    }
    let cmds = bank.note_off(60, 1);
    assert!(matches!(cmds[0], VoiceCommand::Release { voice: 0 }));
    assert_eq!(bank.voice_notes[0], None);
}

#[test]
fn poly_bank_releases_every_voice_of_the_note() {
    let mut bank: VoiceBank<u8> = VoiceBank::new();
    let mut active = [false; MAX_VOICES];
    for expected in 0..3usize {
        match bank.note_on(60, 1, 4, &active) {
            VoiceCommand::Start { voice, .. } => assert_eq!(voice, expected),
            _ => panic!("expected a start"),
        }
        active[expected] = true;
    }
    assert_eq!(bank.note_counter, 3);
    let cmds = bank.note_off(60, 4);
    assert_eq!(cmds.len(), 3);
    assert!(bank.voice_notes.iter().all(|n| n.is_none()));
}
