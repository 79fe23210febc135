use polysynth::config::{SAMPLE_HZ, VOICE_COUNT};
use polysynth::{Engine, Message, NoteEvent, NoteModule, Sequencer};

fn ready() -> (NoteModule, Engine) {
    let mut engine = Engine::new(SAMPLE_HZ);
    engine.init_polysynth();
    engine.take_messages();
    (NoteModule::new(), engine)
}

fn note_ons(msgs: &[Message]) -> Vec<i32> {
    msgs.iter()
        .filter_map(|m| match m {
            Message::Note { midi_num, on: true, .. } => Some(*midi_num),
            _ => None,
        })
        .collect()
}

#[test]
fn new_sequencer_is_all_rests() {
    let seq = Sequencer::new(1, 120, 8);
    assert_eq!(seq.get_bpm(), 120);
    assert!(!seq.any_scheduled_notes());
    let steps = seq.get_current_steps();
    assert_eq!(steps.len(), VOICE_COUNT);
    assert!(steps.iter().all(|e| *e == NoteEvent::none()));
    assert_eq!(seq.get_next_step(), 1);
}

#[test]
fn tock_without_staged_notes_leaves_a_rest() {
    let (mut nm, mut engine) = ready();
    let mut seq = Sequencer::new(1, 120, 4);
    seq.tock(&mut engine, &mut nm);
    assert!(seq.get_current_steps().iter().all(|e| *e == NoteEvent::none()));
    assert!(engine.take_messages().is_empty());
}

#[test]
fn committed_note_replays_on_the_next_cycle() {
    let (mut nm, mut engine) = ready();
    // Live input on channel 0 is captured by the sequencer of channel 1.
    nm.note_event(&mut engine, NoteEvent { down: true, note: 6700, velocity: 90, timestamp: 5 }, 0);
    engine.take_messages();
    let mut seq = Sequencer::new(1, 120, 4);
    seq.update_notes(&nm);
    assert!(seq.any_scheduled_notes());
    seq.tock(&mut engine, &mut nm);
    assert!(!seq.any_scheduled_notes());
    let committed = seq.get_current_steps();
    assert_eq!(committed[0], NoteEvent { down: true, note: 6700, velocity: 90, timestamp: 5 });

    // Steps 1, 2, 3 are rests; the fourth tick comes back to step 0.
    for _ in 0..3 {
        seq.tick(&mut engine, &mut nm);
        seq.tock(&mut engine, &mut nm);
        assert!(note_ons(&engine.take_messages()).is_empty());
    }
    assert_eq!(seq.get_next_step(), 0);
    seq.tick(&mut engine, &mut nm);
    let msgs = engine.take_messages();
    assert_eq!(note_ons(&msgs), vec![6700]);
    assert_eq!(seq.get_current_steps(), committed);
    let receivers = engine.get_control_map(1).note_receivers;
    match &msgs[0] {
        Message::Note { ixs, midi_num, velocity, on, timestamp } => {
            assert_eq!(ixs, &receivers[0]);
            assert_eq!((*midi_num, *velocity, *on, *timestamp), (6700, 90, true, 5));
        }
        other => panic!("unexpected {:?}", other),
    }

    // Next tick releases it before playing the following step.
    seq.tick(&mut engine, &mut nm);
    let msgs = engine.take_messages();
    match &msgs[0] {
        Message::Note { midi_num, on, .. } => assert_eq!((*midi_num, *on), (6700, false)),
        other => panic!("unexpected {:?}", other),
    }
    assert!(note_ons(&msgs).is_empty());
}

#[test]
fn cursor_wraps_at_sequence_length() {
    let (mut nm, mut engine) = ready();
    let mut seq = Sequencer::new(2, 90, 3);
    let mut seen = Vec::new();
    for _ in 0..7 {
        seq.tick(&mut engine, &mut nm);
        seen.push(seq.get_next_step());
    }
    assert_eq!(seen, vec![2, 0, 1, 2, 0, 1, 2]);
}

#[test]
fn single_step_sequence_stays_put() {
    let (mut nm, mut engine) = ready();
    let mut seq = Sequencer::new(3, 200, 1);
    for _ in 0..3 {
        seq.tick(&mut engine, &mut nm);
        assert_eq!(seq.get_next_step(), 0);
    }
}

#[test]
fn longest_sequence_uses_every_step() {
    let (mut nm, mut engine) = ready();
    let mut seq = Sequencer::new(1, 120, polysynth::config::MAX_STEPS);
    for k in 1..polysynth::config::MAX_STEPS {
        seq.tick(&mut engine, &mut nm);
        assert_eq!(seq.get_next_step(), (k + 1) % polysynth::config::MAX_STEPS);
    }
    seq.tick(&mut engine, &mut nm);
    assert_eq!(seq.get_next_step(), 1);
}
