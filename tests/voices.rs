use polysynth::config::{SAMPLE_HZ, VOICE_COUNT};
use polysynth::{Engine, Message, NoteEvent, NoteModule};

fn ready() -> (NoteModule, Engine) {
    let mut engine = Engine::new(SAMPLE_HZ);
    engine.init_polysynth();
    engine.take_messages();
    (NoteModule::new(), engine)
}

fn on(note: i32, ts: u64) -> NoteEvent {
    NoteEvent { down: true, note, velocity: 100, timestamp: ts }
}

fn off(note: i32, ts: u64) -> NoteEvent {
    NoteEvent { down: false, note, velocity: 0, timestamp: ts }
}

/// (targets, note, on) of each Note message.
fn notes(msgs: &[Message]) -> Vec<(Vec<usize>, i32, bool)> {
    msgs.iter()
        .map(|m| match m {
            Message::Note { ixs, midi_num, on, .. } => (ixs.clone(), *midi_num, *on),
            other => panic!("not a note: {:?}", other),
        })
        .collect()
}

#[test]
fn note_on_takes_first_free_voice_and_off_releases_it() {
    let (mut nm, mut engine) = ready();
    let receivers = engine.get_control_map(1).note_receivers;
    nm.note_event(&mut engine, on(6000, 1), 1);
    nm.note_event(&mut engine, on(6400, 2), 1);
    nm.note_event(&mut engine, off(6000, 3), 1);
    let got = notes(&engine.take_messages());
    assert_eq!(
        got,
        vec![
            (receivers[0].clone(), 6000, true),
            (receivers[1].clone(), 6400, true),
            (receivers[0].clone(), 6000, false),
        ]
    );
    let voices = nm.get_voices(1);
    assert_eq!(voices[0].note, None);
    assert_eq!(voices[0].velocity, 0);
    assert_eq!(voices[0].timestamp, 1);
    assert_eq!(voices[1].note, Some(6400));
    assert!(nm.get_voices(0).iter().all(|v| v.note.is_none()));
}

#[test]
fn stray_note_off_sends_nothing() {
    let (mut nm, mut engine) = ready();
    nm.note_event(&mut engine, off(6000, 1), 0);
    assert!(engine.take_messages().is_empty());
    nm.note_event(&mut engine, on(6000, 2), 0);
    nm.note_event(&mut engine, off(6000, 3), 0);
    engine.take_messages();
    nm.note_event(&mut engine, off(6000, 4), 0);
    assert!(engine.take_messages().is_empty());
    assert!(nm.get_voices(0).iter().all(|v| v.note.is_none()));
}

#[test]
fn full_pool_steals_the_oldest_voice() {
    let (mut nm, mut engine) = ready();
    let receivers = engine.get_control_map(0).note_receivers;
    // Timestamps 40, 10, 30, 20: voice 1 is oldest.
    for (k, ts) in [40u64, 10, 30, 20].iter().enumerate() {
        nm.note_event(&mut engine, on(6000 + 100 * k as i32, *ts), 0);
    }
    engine.take_messages();
    nm.note_event(&mut engine, on(7200, 50), 0);
    let got = notes(&engine.take_messages());
    assert_eq!(
        got,
        vec![(receivers[1].clone(), 6100, false), (receivers[1].clone(), 7200, true)]
    );
    let voices = nm.get_voices(0);
    assert_eq!(voices[1].note, Some(7200));
    assert_eq!(voices[1].timestamp, 50);
    assert_eq!(voices.len(), VOICE_COUNT);
}

#[test]
fn equal_timestamps_steal_the_lowest_index() {
    let (mut nm, mut engine) = ready();
    let receivers = engine.get_control_map(2).note_receivers;
    for k in 0..VOICE_COUNT {
        nm.note_event(&mut engine, on(5000 + 100 * k as i32, 7), 2);
    }
    engine.take_messages();
    nm.note_event(&mut engine, on(9000, 8), 2);
    let got = notes(&engine.take_messages());
    assert_eq!(got, vec![(receivers[0].clone(), 5000, false), (receivers[0].clone(), 9000, true)]);
    // Next steal goes to voice 1, now the lowest index with timestamp 7.
    nm.note_event(&mut engine, on(9100, 9), 2);
    let got = notes(&engine.take_messages());
    assert_eq!(got, vec![(receivers[1].clone(), 5100, false), (receivers[1].clone(), 9100, true)]);
}

#[test]
fn never_more_notes_than_voices() {
    let (mut nm, mut engine) = ready();
    for k in 0..(3 * VOICE_COUNT) {
        nm.note_event(&mut engine, on(4000 + 100 * k as i32, k as u64), 3);
        let voices = nm.get_voices(3);
        assert_eq!(voices.len(), VOICE_COUNT);
        let held: Vec<i32> = voices.iter().filter_map(|v| v.note).collect();
        assert!(held.len() <= VOICE_COUNT);
        let mut sorted = held.clone();
        sorted.sort();
        sorted.dedup();
        assert_eq!(sorted.len(), held.len());
    }
    let held: Vec<i32> = nm.get_voices(3).iter().filter_map(|v| v.note).collect();
    assert_eq!(held, vec![4800, 4900, 5000, 5100]);
}

#[test]
fn repeated_off_releases_one_voice_at_a_time() {
    let (mut nm, mut engine) = ready();
    nm.note_event(&mut engine, on(6000, 1), 0);
    nm.note_event(&mut engine, on(6000, 2), 0);
    engine.take_messages();
    nm.note_event(&mut engine, off(6000, 3), 0);
    assert_eq!(engine.take_messages().len(), 1);
    let voices = nm.get_voices(0);
    assert_eq!(voices[0].note, None);
    assert_eq!(voices[1].note, Some(6000));
}
