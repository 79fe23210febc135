//! Decoding of raw MIDI bytes into parameter changes and note events.
//!
//! The buffer is read as whole 3-byte messages, without running status.
//! A control change (status 0xB0) of a listed controller becomes a
//! `SetParam` on the focused channel's control map; a note on or off (0x90,
//! 0x80) goes to the voice allocator of channel 0, a note-on of velocity 0
//! counting as a note-off. Any other status byte, or a message cut short,
//! ends decoding of the buffer.

use vstd::prelude::*;
use crate::control::ControlMapView;
use crate::engine::{set_param_msg, Engine};
use crate::message::{Fraction, Level, MessageView};
use crate::note::{alloc_step, pools_wf, NoteEvent, NoteModule, Voice};

verus! {

/// Status byte of a control change.
pub const CONTROL_CHANGE: u8 = 0xb0;

/// Status byte of a note-on.
pub const NOTE_ON: u8 = 0x90;

/// Status byte of a note-off.
pub const NOTE_OFF: u8 = 0x80;

/// The largest data byte: controller values are read as a fraction of it.
pub const MIDI_MAX: u8 = 127;

/// Hundredths of a semitone in one MIDI key.
pub const CENTS_PER_KEY: i32 = 100;

/// One decoded MIDI message.
pub enum MidiEvent {
    Control { controller: u8, value: u8 },
    Note(NoteEvent),
}

/// The note event of a note message.
pub open spec fn note_of(status: u8, key: u8, velocity: u8, ts: u64) -> NoteEvent {
    NoteEvent {
        down: status == NOTE_ON && velocity > 0,
        note: (key * CENTS_PER_KEY) as i32,
        velocity,
        timestamp: ts,
    }
}

/// The messages of `data`, up to the first unknown status byte or
/// incomplete message.
pub open spec fn decode(data: Seq<u8>, ts: u64) -> Seq<MidiEvent>
    decreases data.len(),
{
    if data.len() < 3 {
        Seq::empty()
    } else if data[0] == CONTROL_CHANGE {
        seq![MidiEvent::Control { controller: data[1], value: data[2] }] + decode(data.skip(3), ts)
    } else if data[0] == NOTE_ON || data[0] == NOTE_OFF {
        seq![MidiEvent::Note(note_of(data[0], data[1], data[2], ts))] + decode(data.skip(3), ts)
    } else {
        Seq::empty()
    }
}

/// The node and the top of the range that controller `controller` drives
/// in `cm`; every range starts at 0.
pub open spec fn cc_target(cm: ControlMapView, controller: u8) -> Option<(usize, Level)> {
    if controller == 1 {
        Some((cm.cutoff, Level::Log2 { hz: 22000 }))
    } else if controller == 2 {
        Some((cm.reso, Level::Ratio { num: 995, den: 1000 }))
    } else if controller == 5 {
        Some((cm.attack, Level::Ratio { num: 10, den: 1 }))
    } else if controller == 6 {
        Some((cm.decay, Level::Ratio { num: 10, den: 1 }))
    } else if controller == 7 {
        Some((cm.sustain, Level::Ratio { num: 6, den: 1 }))
    } else if controller == 8 {
        Some((cm.release, Level::Ratio { num: 10, den: 1 }))
    } else {
        None
    }
}

/// The bottom of every controller's range.
pub open spec fn cc_floor() -> Level {
    Level::Ratio { num: 0, den: 1 }
}

/// The parameter change of a control change to `cm`, if the controller is listed.
pub open spec fn control_msgs(cm: ControlMapView, controller: u8, value: u8, ts: u64) -> Seq<MessageView> {
    match cc_target(cm, controller) {
        Some(t) => seq![
            set_param_msg(t.0, cc_floor(), t.1, Fraction { num: value as u32, den: MIDI_MAX as u32 }, ts),
        ],
        None => Seq::empty(),
    }
}

/// Each of `evs` in turn: control changes addressed to `cm`, notes to the
/// pool of channel 0 whose voices send to `targets`. The new pools and all
/// messages, in order.
pub open spec fn midi_effect(
    pools: Seq<Seq<Voice>>,
    cm: ControlMapView,
    targets: Seq<Seq<usize>>,
    evs: Seq<MidiEvent>,
    ts: u64,
) -> (Seq<Seq<Voice>>, Seq<MessageView>)
    decreases evs.len(),
{
    if evs.len() == 0 {
        (pools, Seq::empty())
    } else {
        let before = midi_effect(pools, cm, targets, evs.drop_last(), ts);
        match evs.last() {
            MidiEvent::Control { controller, value } => (
                before.0,
                before.1 + control_msgs(cm, controller, value, ts),
            ),
            MidiEvent::Note(ev) => {
                let step = alloc_step(before.0[0], targets, ev);
                (before.0.update(0, step.0), before.1 + step.1)
            },
        }
    }
}

/// The MIDI input.
pub struct Midi {}

impl Midi {
    pub fn new() -> (r: Midi) {
        Midi {}
    }

    /// Connection set-up belongs to the host; nothing to do here.
    pub fn setup_midi_connection() {
    }

    /// Decodes `data`, received at `ts`, and acts on each message in turn.
    pub fn dispatch_midi(note_module: &mut NoteModule, engine: &mut Engine, data: &[u8], ts: u64)
        requires
            pools_wf(old(note_module)@),
            old(engine)@.wf(),
            old(engine)@.has_channel(old(engine)@.current_channel as int),
            old(engine)@.has_channel(0),
        ensures
            pools_wf(final(note_module)@),
            ({
                let r = midi_effect(
                    old(note_module)@,
                    old(engine)@.control_maps[old(engine)@.current_channel as int]->0,
                    old(engine)@.control_maps[0]->0.note_receivers,
                    decode(data@, ts),
                    ts,
                );
                &&& final(note_module)@ == r.0
                &&& final(engine)@ == old(engine)@.sent(r.1)
            }),
    {
        let ghost nm0 = note_module@;
        let ghost e0 = engine@;
        let control_map = engine.get_current_control_map();
        let ghost cm = control_map@;
        let ghost targets = e0.control_maps[0]->0.note_receivers;
        let ghost mut done: Seq<MidiEvent> = Seq::empty();
        let mut i: usize = 0;
        let mut halted = false;
        assert(data@.skip(0) =~= data@);
        assert(e0.core.outbox + Seq::empty() =~= e0.core.outbox);
        while !halted && data.len() - i >= 3
            invariant
                i <= data.len(),
                pools_wf(note_module@),
                pools_wf(nm0),
                engine@.wf(),
                engine@.control_maps == e0.control_maps,
                e0.has_channel(0),
                control_map@ == cm,
                targets == e0.control_maps[0]->0.note_receivers,
                decode(data@, ts) == done + decode(data@.skip(i as int), ts),
                halted ==> decode(data@.skip(i as int), ts) == Seq::<MidiEvent>::empty(),
                note_module@ == midi_effect(nm0, cm, targets, done, ts).0,
                engine@ == e0.sent(midi_effect(nm0, cm, targets, done, ts).1),
            decreases data.len() - i + if halted {
                0int
            } else {
                1int
            },
        {
            let ghost rest = data@.skip(i as int);
            let ghost before = midi_effect(nm0, cm, targets, done, ts);
            assert(rest.skip(3) =~= data@.skip(i + 3));
            let status = data[i];
            if status == CONTROL_CHANGE {
                let controller = data[i + 1];
                let value = Midi::midi_value_to_fraction(data[i + 2]);
                let ghost ev = MidiEvent::Control { controller, value: data[i + 2] };
                let zero = Level::whole(0);
                if controller == 1 {
                    engine.set_ctrl_const(value, zero, Level::Log2 { hz: 22000 }, control_map.cutoff, ts);
                } else if controller == 2 {
                    engine.set_ctrl_const(value, zero, Level::Ratio { num: 995, den: 1000 }, control_map.reso, ts);
                } else if controller == 5 {
                    engine.set_ctrl_const(value, zero, Level::whole(10), control_map.attack, ts);
                } else if controller == 6 {
                    engine.set_ctrl_const(value, zero, Level::whole(10), control_map.decay, ts);
                } else if controller == 7 {
                    engine.set_ctrl_const(value, zero, Level::whole(6), control_map.sustain, ts);
                } else if controller == 8 {
                    engine.set_ctrl_const(value, zero, Level::whole(10), control_map.release, ts);
                } else {
                    assert(e0.core.outbox + before.1 + Seq::empty() =~= e0.core.outbox + before.1);
                }
                proof {
                    let done2 = done.push(ev);
                    assert(done2.drop_last() =~= done);
                    assert(e0.core.outbox + before.1 + control_msgs(cm, controller, data[i + 2], ts)
                        =~= e0.core.outbox + (before.1 + control_msgs(cm, controller, data[i + 2], ts)));
                    assert(done + (seq![ev] + decode(data@.skip(i + 3), ts)) =~= done2 + decode(
                        data@.skip(i + 3),
                        ts,
                    ));
                    done = done2;
                }
                i += 3;
            } else if status == NOTE_ON || status == NOTE_OFF {
                let key = data[i + 1];
                let velocity = data[i + 2];
                let on = status == NOTE_ON && velocity > 0;
                let ev = NoteEvent { down: on, note: key as i32 * CENTS_PER_KEY, velocity, timestamp: ts };
                let ghost mev = MidiEvent::Note(ev);
                assert(ev == note_of(status, key, velocity, ts));
                note_module.note_event(engine, ev, 0);
                proof {
                    let done2 = done.push(mev);
                    assert(done2.drop_last() =~= done);
                    let step = alloc_step(before.0[0], targets, ev);
                    assert(e0.core.outbox + before.1 + step.1 =~= e0.core.outbox + (before.1 + step.1));
                    assert(done + (seq![mev] + decode(data@.skip(i + 3), ts)) =~= done2 + decode(
                        data@.skip(i + 3),
                        ts,
                    ));
                    done = done2;
                }
                i += 3;
            } else {
                halted = true;
            }
        }
        assert(data.len() - i < 3 ==> data@.skip(i as int).len() < 3);
        assert(done + Seq::<MidiEvent>::empty() =~= done);
    }

    /// A controller value as a fraction of the largest one.
    fn midi_value_to_fraction(value: u8) -> (r: Fraction)
        ensures
            r == (Fraction { num: value as u32, den: MIDI_MAX as u32 }),
    {
        Fraction { num: value as u32, den: MIDI_MAX as u32 }
    }
}

} // verus!
