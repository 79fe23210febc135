use polysynth::config::SAMPLE_HZ;
use polysynth::{Engine, Fraction, Level, Message, Midi, NoteModule, ParamValue, Serial};

fn ready() -> (NoteModule, Engine) {
    let mut engine = Engine::new(SAMPLE_HZ);
    engine.init_polysynth();
    engine.take_messages();
    (NoteModule::new(), engine)
}

fn zero() -> Level {
    Level::Ratio { num: 0, den: 1 }
}

fn set_param(m: &Message) -> (usize, ParamValue, u64) {
    match m {
        Message::SetParam { ix, param_ix: 0, value, timestamp } => (*ix, *value, *timestamp),
        other => panic!("unexpected {:?}", other),
    }
}

#[test]
fn cutoff_controller_at_full_scale() {
    let (mut nm, mut engine) = ready();
    engine.set_current_channel(2);
    Midi::dispatch_midi(&mut nm, &mut engine, &[0xB0, 1, 127], 11);
    let msgs = engine.take_messages();
    assert_eq!(msgs.len(), 1);
    let (ix, value, ts) = set_param(&msgs[0]);
    assert_eq!(ix, engine.get_control_map(2).cutoff);
    assert_eq!(ts, 11);
    assert_eq!(value.hi, Level::Log2 { hz: 22000 });
    assert_eq!(value.lo, zero());
    // The point at 127/127 of the segment is its top, log2(22000).
    assert_eq!(value.at, Fraction { num: 127, den: 127 });
}

#[test]
fn each_listed_controller_has_its_range() {
    let (mut nm, mut engine) = ready();
    let cm = engine.get_current_control_map();
    let data = [0xB0, 2, 64, 0xB0, 5, 0, 0xB0, 6, 1, 0xB0, 7, 100, 0xB0, 8, 127];
    Midi::dispatch_midi(&mut nm, &mut engine, &data, 3);
    let got: Vec<(usize, ParamValue, u64)> = engine.take_messages().iter().map(set_param).collect();
    let pv = |hi: Level, num: u32| ParamValue { lo: zero(), hi, at: Fraction { num, den: 127 } };
    assert_eq!(
        got,
        vec![
            (cm.reso, pv(Level::Ratio { num: 995, den: 1000 }, 64), 3),
            (cm.attack, pv(Level::Ratio { num: 10, den: 1 }, 0), 3),
            (cm.decay, pv(Level::Ratio { num: 10, den: 1 }, 1), 3),
            (cm.sustain, pv(Level::Ratio { num: 6, den: 1 }, 100), 3),
            (cm.release, pv(Level::Ratio { num: 10, den: 1 }, 127), 3),
        ]
    );
}

#[test]
fn unlisted_controller_is_ignored() {
    let (mut nm, mut engine) = ready();
    Midi::dispatch_midi(&mut nm, &mut engine, &[0xB0, 3, 64, 0xB0, 1, 0], 0);
    let msgs = engine.take_messages();
    assert_eq!(msgs.len(), 1);
    assert_eq!(set_param(&msgs[0]).0, engine.get_control_map(0).cutoff);
}

#[test]
fn note_on_then_off_targets_the_same_voice() {
    let (mut nm, mut engine) = ready();
    let receivers = engine.get_control_map(0).note_receivers;
    Midi::dispatch_midi(&mut nm, &mut engine, &[0x90, 60, 100], 1);
    Midi::dispatch_midi(&mut nm, &mut engine, &[0x80, 60, 0], 2);
    let msgs = engine.take_messages();
    assert_eq!(msgs.len(), 2);
    match (&msgs[0], &msgs[1]) {
        (
            Message::Note { ixs: a, midi_num: n1, on: true, velocity: 100, timestamp: 1 },
            Message::Note { ixs: b, midi_num: n2, on: false, timestamp: 2, .. },
        ) => {
            assert_eq!(a, &receivers[0]);
            assert_eq!(a, b);
            assert_eq!((*n1, *n2), (6000, 6000));
        }
        other => panic!("unexpected {:?}", other),
    }
}

#[test]
fn note_on_with_zero_velocity_is_a_note_off() {
    let (mut nm, mut engine) = ready();
    Midi::dispatch_midi(&mut nm, &mut engine, &[0x90, 64, 80, 0x90, 64, 0], 1);
    let msgs = engine.take_messages();
    assert_eq!(msgs.len(), 2);
    assert!(matches!(msgs[1], Message::Note { midi_num: 6400, on: false, .. }));
    assert!(nm.get_voices(0).iter().all(|v| v.note.is_none()));
}

#[test]
fn unknown_status_halts_the_buffer() {
    let (mut nm, mut engine) = ready();
    Midi::dispatch_midi(&mut nm, &mut engine, &[0x90, 60, 100, 0xF0, 1, 2, 0x90, 62, 100], 1);
    let msgs = engine.take_messages();
    assert_eq!(msgs.len(), 1);
    assert_eq!(nm.get_voices(0)[1].note, None);
}

#[test]
fn incomplete_message_halts_the_buffer() {
    let (mut nm, mut engine) = ready();
    Midi::dispatch_midi(&mut nm, &mut engine, &[0xB0, 1, 10, 0x90, 60], 1);
    assert_eq!(engine.take_messages().len(), 1);
    Midi::dispatch_midi(&mut nm, &mut engine, &[], 1);
    assert!(engine.take_messages().is_empty());
}

#[test]
fn inputs_construct() {
    let _midi = Midi::new();
    Midi::setup_midi_connection();
    let _serial = Serial::new();
}
