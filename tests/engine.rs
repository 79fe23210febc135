use polysynth::config::{CHANNEL_COUNT, SAMPLE_HZ, VOICE_COUNT};
use polysynth::engine::{CHANNEL_NODES, CONTROL_NODES, POLYSYNTH_NODES, VOICE_NODES};
use polysynth::{Engine, Fraction, Level, Message, ModuleSpec, ModuleType, ParamValue};

fn created(m: &Message) -> (usize, ModuleSpec, Vec<(usize, usize)>, Vec<(usize, usize)>) {
    match m {
        Message::CreateNode { id, module, buf_wiring, ctrl_wiring } => {
            (*id, *module, buf_wiring.clone(), ctrl_wiring.clone())
        }
        other => panic!("not a node: {:?}", other),
    }
}

#[test]
fn new_engine_focuses_channel_zero_and_sends_nothing() {
    let mut engine = Engine::new(SAMPLE_HZ);
    assert_eq!(engine.get_current_channel(), 0);
    assert!(engine.take_messages().is_empty());
}

#[test]
fn polysynth_builds_every_channel_and_the_master_bus() {
    let mut engine = Engine::new(SAMPLE_HZ);
    engine.init_polysynth();
    let msgs = engine.take_messages();
    assert_eq!(msgs.len(), POLYSYNTH_NODES + 1);
    assert_eq!(CHANNEL_NODES, CONTROL_NODES + VOICE_NODES * VOICE_COUNT + 1);

    // First channel's controls start right after the reserved master bus.
    let (id, module, buf, ctrl) = created(&msgs[0]);
    assert_eq!(id, 1);
    assert_eq!(module, ModuleSpec::SmoothCtrl(Level::Ratio { num: 5, den: 1 }));
    assert!(buf.is_empty() && ctrl.is_empty());
    let (id, module, _, _) = created(&msgs[5]);
    assert_eq!(id, 6);
    assert_eq!(module, ModuleSpec::SmoothCtrl(Level::Log2 { hz: 880 }));

    // The first voice's filter reads the channel's cutoff and resonance.
    let (id, module, buf, ctrl) = created(&msgs[CONTROL_NODES + 2]);
    assert_eq!(id, 10);
    assert_eq!(module, ModuleSpec::Biquad { sample_rate: SAMPLE_HZ });
    assert_eq!(buf, vec![(9, 0)]);
    assert_eq!(ctrl, vec![(6, 0), (7, 0)]);

    // Channel bus sums the voices' monitor taps.
    let (id, module, buf, _) = created(&msgs[CHANNEL_NODES - 1]);
    assert_eq!(id, CHANNEL_NODES);
    assert_eq!(module, ModuleSpec::Sum);
    assert_eq!(buf, vec![(16, 0), (25, 0), (34, 0), (43, 0)]);

    // Master bus comes last and sums the channel buses.
    let (id, module, buf, ctrl) = created(&msgs[POLYSYNTH_NODES]);
    assert_eq!(id, 0);
    assert_eq!(module, ModuleSpec::Sum);
    assert_eq!(buf, vec![(44, 0), (88, 0), (132, 0), (176, 0)]);
    assert!(ctrl.is_empty());

    let cm = engine.get_control_map(1);
    assert_eq!(cm.attack, 45);
    assert_eq!(cm.cutoff, 50);
    assert_eq!(cm.reso, 51);
    assert_eq!(cm.note_receivers.len(), VOICE_COUNT);
    assert_eq!(cm.note_receivers[0], vec![52, 55]);
    assert_eq!(cm.note_receivers[3], vec![79, 82]);
}

#[test]
fn monosynth_gives_each_channel_one_voice() {
    let mut engine = Engine::new(SAMPLE_HZ);
    engine.init_monosynth();
    let msgs = engine.take_messages();
    assert_eq!(msgs.len(), (CONTROL_NODES + VOICE_NODES) * CHANNEL_COUNT);
    let cm = engine.get_control_map(2);
    assert_eq!(cm.attack, 33);
    assert_eq!(cm.note_receivers[0], vec![40, 43]);
    assert!(cm.note_receivers[1].is_empty());
}

#[test]
fn out_of_range_channel_is_ignored() {
    let mut engine = Engine::new(SAMPLE_HZ);
    engine.set_current_channel(1);
    assert_eq!(engine.get_current_channel(), 0);
    engine.init_polysynth();
    engine.set_current_channel(3);
    assert_eq!(engine.get_current_channel(), 3);
    engine.set_current_channel(CHANNEL_COUNT);
    assert_eq!(engine.get_current_channel(), 3);
    let cm = engine.get_current_control_map();
    assert_eq!(cm.cutoff, engine.get_control_map(3).cutoff);
}

#[test]
fn ctrl_const_sends_one_set_param() {
    let mut engine = Engine::new(SAMPLE_HZ);
    let at = Fraction { num: 1, den: 2 };
    engine.set_ctrl_const(at, Level::Ratio { num: 0, den: 1 }, Level::Ratio { num: 10, den: 1 }, 7, 99);
    let msgs = engine.take_messages();
    assert_eq!(msgs.len(), 1);
    match &msgs[0] {
        Message::SetParam { ix, param_ix, value, timestamp } => {
            assert_eq!(*ix, 7);
            assert_eq!(*param_ix, 0);
            assert_eq!(
                *value,
                ParamValue { lo: Level::Ratio { num: 0, den: 1 }, hi: Level::Ratio { num: 10, den: 1 }, at }
            );
            assert_eq!(*timestamp, 99);
        }
        other => panic!("unexpected {:?}", other),
    }
}

#[test]
fn module_gets_its_own_pitch_control() {
    let mut engine = Engine::new(SAMPLE_HZ);
    let id = engine.instantiate_module(0, ModuleType::Sin);
    assert_eq!(id, 2);
    let msgs = engine.take_messages();
    assert_eq!(msgs.len(), 2);
    let (pid, pmod, _, _) = created(&msgs[0]);
    assert_eq!((pid, pmod), (1, ModuleSpec::SmoothCtrl(Level::Log2 { hz: 440 })));
    let (oid, omod, buf, ctrl) = created(&msgs[1]);
    assert_eq!((oid, omod), (2, ModuleSpec::Sin { sample_rate: SAMPLE_HZ }));
    assert!(buf.is_empty());
    assert_eq!(ctrl, vec![(1, 0)]);
    let next = engine.instantiate_module(0, ModuleType::Saw);
    assert_eq!(next, 4);
}

#[test]
fn outputs_rewire_the_master_bus() {
    let mut engine = Engine::new(SAMPLE_HZ);
    engine.set_outputs(&[2, 4]);
    let msgs = engine.take_messages();
    assert_eq!(msgs.len(), 1);
    let (id, module, buf, _) = created(&msgs[0]);
    assert_eq!((id, module), (0, ModuleSpec::Sum));
    assert_eq!(buf, vec![(2, 0), (4, 0)]);
}

#[test]
fn control_map_copy_is_equal() {
    let mut engine = Engine::new(SAMPLE_HZ);
    engine.init_polysynth();
    let cm = engine.get_control_map(0);
    let copy = cm.duplicate();
    assert_eq!(copy.note_receivers, cm.note_receivers);
    assert_eq!(copy.ext, cm.ext);
}
