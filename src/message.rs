//! The message protocol spoken to the external audio engine.
//!
//! Values that the engine holds as real numbers are carried here exactly:
//! a control level is a ratio of integers or the base-two logarithm of a
//! frequency, and a parameter change is a point on the segment between two
//! levels. The engine side turns them into samples' arithmetic.

use vstd::prelude::*;

verus! {

/// A real number as the engine's control nodes receive it.
#[derive(Clone, Copy, Debug, PartialEq, Eq, Structural)]
pub enum Level {
    /// `num / den`.
    Ratio { num: i64, den: u64 },
    /// `log2(hz)`, the engine's pitch-like unit for a frequency.
    Log2 { hz: u64 },
}

impl Level {
    /// The integer `n` as a level.
    pub open spec fn spec_whole(n: i64) -> Level {
        Level::Ratio { num: n, den: 1 }
    }

    pub fn whole(n: i64) -> (r: Level)
        ensures
            r == Level::spec_whole(n),
    {
        Level::Ratio { num: n, den: 1 }
    }
}

/// A fraction `num / den` of the unit interval.
#[derive(Clone, Copy, Debug, PartialEq, Eq, Structural)]
pub struct Fraction {
    pub num: u32,
    pub den: u32,
}

/// The value `lo + at * (hi - lo)`.
#[derive(Clone, Copy, Debug, PartialEq, Eq, Structural)]
pub struct ParamValue {
    pub lo: Level,
    pub hi: Level,
    pub at: Fraction,
}

/// The kind and the fixed settings of a node of the synthesis graph.
#[derive(Clone, Copy, Debug, PartialEq, Eq, Structural)]
pub enum ModuleSpec {
    /// A control value that glides towards the last one set, starting at the level.
    SmoothCtrl(Level),
    /// A control value fixed at the level.
    ConstCtrl(Level),
    /// Sums its audio inputs.
    Sum,
    /// Turns the notes it receives into a pitch control.
    NotePitch,
    /// Sawtooth oscillator.
    Saw { sample_rate: u32 },
    /// Sine oscillator.
    Sin { sample_rate: u32 },
    /// Filter with cutoff and resonance controls.
    Biquad { sample_rate: u32 },
    /// Envelope driven by notes, with attack, decay, sustain and release controls.
    Adsr,
    /// Scales its audio input by its control input.
    Gain,
    /// Hands the audio that passes through it back for metering.
    Monitor,
}

/// One unit of the protocol.
#[derive(Clone, Debug)]
pub enum Message {
    /// Creates (or replaces) node `id`; each wiring entry is a source node and its output slot.
    CreateNode {
        id: usize,
        module: ModuleSpec,
        buf_wiring: Vec<(usize, usize)>,
        ctrl_wiring: Vec<(usize, usize)>,
    },
    /// Schedules a change of parameter `param_ix` of node `ix`.
    SetParam { ix: usize, param_ix: usize, value: ParamValue, timestamp: u64 },
    /// A note on or off, fanned out to every node of `ixs`.
    /// `midi_num` is in hundredths of a semitone.
    Note { ixs: Vec<usize>, midi_num: i32, velocity: u8, on: bool, timestamp: u64 },
}

/// What a [`Message`] says, with its lists as sequences.
pub enum MessageView {
    CreateNode {
        id: usize,
        module: ModuleSpec,
        buf_wiring: Seq<(usize, usize)>,
        ctrl_wiring: Seq<(usize, usize)>,
    },
    SetParam { ix: usize, param_ix: usize, value: ParamValue, timestamp: u64 },
    Note { ixs: Seq<usize>, midi_num: i32, velocity: u8, on: bool, timestamp: u64 },
}

impl View for Message {
    type V = MessageView;

    open spec fn view(&self) -> MessageView {
        match self {
            Message::CreateNode { id, module, buf_wiring, ctrl_wiring } => MessageView::CreateNode {
                id: *id,
                module: *module,
                buf_wiring: buf_wiring@,
                ctrl_wiring: ctrl_wiring@,
            },
            Message::SetParam { ix, param_ix, value, timestamp } => MessageView::SetParam {
                ix: *ix,
                param_ix: *param_ix,
                value: *value,
                timestamp: *timestamp,
            },
            Message::Note { ixs, midi_num, velocity, on, timestamp } => MessageView::Note {
                ixs: ixs@,
                midi_num: *midi_num,
                velocity: *velocity,
                on: *on,
                timestamp: *timestamp,
            },
        }
    }
}

/// The views of a list of messages.
pub open spec fn views(ms: Seq<Message>) -> Seq<MessageView> {
    ms.map_values(|m: Message| m@)
}

/// A node with no inputs.
pub open spec fn create_leaf(id: int, module: ModuleSpec) -> MessageView {
    MessageView::CreateNode {
        id: id as usize,
        module,
        buf_wiring: Seq::empty(),
        ctrl_wiring: Seq::empty(),
    }
}

/// A node wired as given.
pub open spec fn create_wired(
    id: int,
    module: ModuleSpec,
    buf_wiring: Seq<(usize, usize)>,
    ctrl_wiring: Seq<(usize, usize)>,
) -> MessageView {
    MessageView::CreateNode { id: id as usize, module, buf_wiring, ctrl_wiring }
}

/// The wiring that takes output slot 0 of each of `nodes`.
pub open spec fn first_outputs(nodes: Seq<usize>) -> Seq<(usize, usize)> {
    nodes.map_values(|n: usize| (n, 0usize))
}

} // verus!
