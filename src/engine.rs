//! Builder of the synthesis graph and outbox of the messages for the audio engine.
//!
//! Node identifiers are handed out in increasing order; identifier 0 is the
//! master bus, reserved before any other node. Every message is appended to
//! an outbox that the host drains and forwards to the engine.

use vstd::prelude::*;
use crate::config::{CHANNEL_COUNT, VOICE_COUNT};
use crate::control::{ControlMap, ControlMapView, ModuleType};
use crate::message::{
    create_leaf, create_wired, first_outputs, views, Fraction, Level, Message, MessageView, ModuleSpec,
    ParamValue,
};

verus! {

/// Identifier of a node in the external interface.
pub type NodeId = usize;

/// Nodes that `Core::init_controls` creates.
pub const CONTROL_NODES: usize = 7;

/// Nodes that `Core::init_monosynth` creates for one voice.
pub const VOICE_NODES: usize = 9;

/// Nodes that `Engine::init_polysynth` creates for one channel.
pub const CHANNEL_NODES: usize = CONTROL_NODES + VOICE_NODES * VOICE_COUNT + 1;

/// Nodes that `Engine::init_polysynth` creates in all.
pub const POLYSYNTH_NODES: usize = CHANNEL_NODES * CHANNEL_COUNT;

/// Nodes that `Engine::init_monosynth` creates in all.
pub const MONOSYNTH_NODES: usize = (CONTROL_NODES + VOICE_NODES) * CHANNEL_COUNT;

/// Nodes that `Core::instantiate_module` creates.
pub const MODULE_NODES: usize = 2;

/// The identifier allocator, the sample rate and the outbox.
pub struct Core {
    sample_rate: u32,
    next_id: usize,
    outbox: Vec<Message>,
}

pub struct CoreView {
    pub sample_rate: u32,
    /// The next identifier to hand out; all below it are taken.
    pub next_id: usize,
    /// Messages not yet drained, oldest first.
    pub outbox: Seq<MessageView>,
}

impl View for Core {
    type V = CoreView;

    closed spec fn view(&self) -> CoreView {
        CoreView { sample_rate: self.sample_rate, next_id: self.next_id, outbox: views(self.outbox@) }
    }
}

/// Level of a voice's envelope controls (attack, decay, release) at start.
pub open spec fn env_time_level() -> Level {
    Level::Ratio { num: 5, den: 1 }
}

/// Messages of `Core::init_controls` for identifiers from `b` on.
pub open spec fn control_msgs(b: int) -> Seq<MessageView> {
    seq![
        create_leaf(b, ModuleSpec::SmoothCtrl(env_time_level())),
        create_leaf(b + 1, ModuleSpec::SmoothCtrl(env_time_level())),
        create_leaf(b + 2, ModuleSpec::SmoothCtrl(Level::Ratio { num: 4, den: 1 })),
        create_leaf(b + 3, ModuleSpec::SmoothCtrl(env_time_level())),
        create_leaf(b + 4, ModuleSpec::Sum),
        create_leaf(b + 5, ModuleSpec::SmoothCtrl(Level::Log2 { hz: 880 })),
        create_leaf(b + 6, ModuleSpec::SmoothCtrl(Level::Ratio { num: 1, den: 2 })),
    ]
}

/// The control map of `Core::init_controls` for identifiers from `b` on.
pub open spec fn controls_at(b: int) -> ControlMapView {
    ControlMapView {
        attack: b as usize,
        decay: (b + 1) as usize,
        sustain: (b + 2) as usize,
        release: (b + 3) as usize,
        ext: (b + 4) as usize,
        cutoff: (b + 5) as usize,
        reso: (b + 6) as usize,
        note_receivers: Seq::new(VOICE_COUNT as nat, |v: int| Seq::<usize>::empty()),
    }
}

/// Messages of `Core::init_monosynth` for identifiers from `b` on, wired to the controls of `cm`.
pub open spec fn voice_msgs(cm: ControlMapView, b: int, sr: u32) -> Seq<MessageView> {
    seq![
        create_leaf(b, ModuleSpec::NotePitch),
        create_wired(b + 1, ModuleSpec::Saw { sample_rate: sr }, seq![], first_outputs(seq![b as usize])),
        create_wired(
            b + 2,
            ModuleSpec::Biquad { sample_rate: sr },
            first_outputs(seq![(b + 1) as usize]),
            first_outputs(seq![cm.cutoff, cm.reso]),
        ),
        create_wired(
            b + 3,
            ModuleSpec::Adsr,
            seq![],
            first_outputs(seq![cm.attack, cm.decay, cm.sustain, cm.release]),
        ),
        create_wired(b + 4, ModuleSpec::Gain, first_outputs(seq![(b + 2) as usize]), first_outputs(seq![(b + 3) as usize])),
        create_leaf(b + 5, ModuleSpec::ConstCtrl(Level::Ratio { num: -2i64, den: 1 })),
        create_wired(b + 6, ModuleSpec::Gain, first_outputs(seq![cm.ext]), first_outputs(seq![(b + 5) as usize])),
        create_wired(b + 7, ModuleSpec::Sum, first_outputs(seq![(b + 4) as usize, (b + 6) as usize]), seq![]),
        create_wired(b + 8, ModuleSpec::Monitor, first_outputs(seq![(b + 7) as usize]), seq![]),
    ]
}

/// The nodes of a voice built from `b` on that receive its notes: pitch and envelope.
pub open spec fn voice_receivers(b: int) -> Seq<usize> {
    seq![b as usize, (b + 3) as usize]
}

/// A sum node `id` over output slot 0 of `outputs`.
pub open spec fn sum_msg(id: int, outputs: Seq<usize>) -> MessageView {
    create_wired(id, ModuleSpec::Sum, first_outputs(outputs), seq![])
}

/// Level of the pitch of a module created on its own: 440 Hz.
pub open spec fn module_pitch_level() -> Level {
    Level::Log2 { hz: 440 }
}

/// Messages of `Core::instantiate_module` for identifiers from `b` on.
pub open spec fn module_msgs(ty: ModuleType, b: int, sr: u32) -> Seq<MessageView> {
    let osc = match ty {
        ModuleType::Sin => ModuleSpec::Sin { sample_rate: sr },
        ModuleType::Saw => ModuleSpec::Saw { sample_rate: sr },
    };
    seq![
        create_leaf(b, ModuleSpec::SmoothCtrl(module_pitch_level())),
        create_wired(b + 1, osc, seq![], first_outputs(seq![b as usize])),
    ]
}

/// Wiring from output slot 0 of each of `nodes`, in order.
pub fn wire_outputs(nodes: &[usize]) -> (r: Vec<(usize, usize)>)
    ensures
        r@ == first_outputs(nodes@),
{
    let mut r: Vec<(usize, usize)> = Vec::new();
    let mut i: usize = 0;
    while i < nodes.len()
        invariant
            i <= nodes.len(),
            r@ =~= first_outputs(nodes@.subrange(0, i as int)),
        decreases nodes.len() - i,
    {
        r.push((nodes[i], 0));
        i += 1;
        assert(first_outputs(nodes@.subrange(0, i as int)) =~= first_outputs(nodes@.subrange(0, i - 1)).push((nodes@[i - 1], 0usize)));
    }
    assert(nodes@.subrange(0, i as int) =~= nodes@);
    r
}

/// Wiring from output slot 0 of `node`.
pub fn wire_output(node: usize) -> (r: Vec<(usize, usize)>)
    ensures
        r@ == first_outputs(seq![node]),
{
    let mut r: Vec<(usize, usize)> = Vec::new();
    r.push((node, 0));
    assert(r@ =~= first_outputs(seq![node]));
    r
}

impl Core {
    /// A core with identifier 0 reserved and an empty outbox.
    pub fn new(sample_rate: u32) -> (r: Core)
        ensures
            r@.sample_rate == sample_rate,
            r@.next_id == 1,
            r@.outbox == Seq::<MessageView>::empty(),
    {
        let r = Core { sample_rate, next_id: 1, outbox: Vec::new() };
        assert(views(r.outbox@) =~= Seq::<MessageView>::empty());
        r
    }

    /// Appends a message to the outbox.
    pub fn send(&mut self, msg: Message)
        ensures
            final(self)@ == (CoreView { outbox: old(self)@.outbox.push(msg@), ..old(self)@ }),
    {
        self.outbox.push(msg);
        assert(views(self.outbox@) =~= views(old(self).outbox@).push(msg@));
    }

    /// Hands over the outbox and leaves it empty.
    pub fn take_messages(&mut self) -> (r: Vec<Message>)
        ensures
            views(r@) == old(self)@.outbox,
            final(self)@ == (CoreView { outbox: Seq::empty(), ..old(self)@ }),
    {
        let mut r: Vec<Message> = Vec::new();
        std::mem::swap(&mut self.outbox, &mut r);
        assert(views(self.outbox@) =~= Seq::<MessageView>::empty());
        r
    }

    /// Sends a node under identifier `id`.
    pub fn send_node(
        &mut self,
        id: usize,
        module: ModuleSpec,
        buf_wiring: Vec<(usize, usize)>,
        ctrl_wiring: Vec<(usize, usize)>,
    )
        ensures
            final(self)@ == (CoreView {
                outbox: old(self)@.outbox.push(
                    create_wired(id as int, module, buf_wiring@, ctrl_wiring@),
                ),
                ..old(self)@
            }),
    {
        self.send(Message::CreateNode { id, module, buf_wiring, ctrl_wiring });
    }

    /// Creates a node under a fresh identifier and returns that identifier.
    pub fn create_node(
        &mut self,
        module: ModuleSpec,
        buf_wiring: Vec<(usize, usize)>,
        ctrl_wiring: Vec<(usize, usize)>,
    ) -> (id: usize)
        requires
            old(self)@.next_id < usize::MAX,
        ensures
            id == old(self)@.next_id,
            final(self)@ == (CoreView {
                next_id: (id + 1) as usize,
                outbox: old(self)@.outbox.push(
                    create_wired(id as int, module, buf_wiring@, ctrl_wiring@),
                ),
                ..old(self)@
            }),
    {
        let id = self.next_id;
        self.next_id = id + 1;
        self.send_node(id, module, buf_wiring, ctrl_wiring);
        id
    }

    /// Creates the channel's shared control nodes and returns their map, with no note receivers yet.
    pub fn init_controls(&mut self) -> (r: ControlMap)
        requires
            old(self)@.next_id + CONTROL_NODES <= usize::MAX,
        ensures
            r@ == controls_at(old(self)@.next_id as int),
            final(self)@ == (CoreView {
                next_id: (old(self)@.next_id + CONTROL_NODES) as usize,
                outbox: old(self)@.outbox + control_msgs(old(self)@.next_id as int),
                ..old(self)@
            }),
    {
        let attack = self.create_node(ModuleSpec::SmoothCtrl(Level::whole(5)), Vec::new(), Vec::new());
        let decay = self.create_node(ModuleSpec::SmoothCtrl(Level::whole(5)), Vec::new(), Vec::new());
        let sustain = self.create_node(ModuleSpec::SmoothCtrl(Level::whole(4)), Vec::new(), Vec::new());
        let release = self.create_node(ModuleSpec::SmoothCtrl(Level::whole(5)), Vec::new(), Vec::new());
        let ext = self.create_node(ModuleSpec::Sum, Vec::new(), Vec::new());
        let cutoff = self.create_node(
            ModuleSpec::SmoothCtrl(Level::Log2 { hz: 880 }),
            Vec::new(),
            Vec::new(),
        );
        let reso = self.create_node(
            ModuleSpec::SmoothCtrl(Level::Ratio { num: 1, den: 2 }),
            Vec::new(),
            Vec::new(),
        );
        let mut note_receivers: Vec<Vec<usize>> = Vec::new();
        let mut v: usize = 0;
        while v < VOICE_COUNT
            invariant
                v <= VOICE_COUNT,
                note_receivers.len() == v,
                forall|k: int| 0 <= k < v ==> (#[trigger] note_receivers@[k])@ == Seq::<usize>::empty(),
            decreases VOICE_COUNT - v,
        {
            note_receivers.push(Vec::new());
            v += 1;
        }
        let r = ControlMap { cutoff, reso, attack, decay, sustain, release, ext, note_receivers };
        assert(r@.note_receivers =~= controls_at(old(self)@.next_id as int).note_receivers);
        assert(self@.outbox =~= old(self)@.outbox + control_msgs(old(self)@.next_id as int));
        r
    }

    /// Builds one voice wired to the controls of `control_map`, records its
    /// pitch and envelope nodes as the receivers of voice slot `voice_number`,
    /// and returns the map with the identifier of the voice's monitor tap.
    pub fn init_monosynth(&mut self, voice_number: usize, control_map: ControlMap) -> (r: (
        ControlMap,
        usize,
    ))
        requires
            old(self)@.next_id + VOICE_NODES <= usize::MAX,
            voice_number < control_map.note_receivers.len(),
        ensures
            ({
                let b = old(self)@.next_id as int;
                &&& r.0@ == (ControlMapView {
                    note_receivers: control_map@.note_receivers.update(
                        voice_number as int,
                        control_map@.note_receivers[voice_number as int] + voice_receivers(b),
                    ),
                    ..control_map@
                })
                &&& r.1 == b + 8
                &&& final(self)@ == (CoreView {
                    next_id: (b + VOICE_NODES) as usize,
                    outbox: old(self)@.outbox + voice_msgs(control_map@, b, old(self)@.sample_rate),
                    ..old(self)@
                })
            }),
    {
        let ghost cm0 = control_map@;
        let mut control_map = control_map;
        let sample_rate = self.sample_rate;
        let note_pitch = self.create_node(ModuleSpec::NotePitch, Vec::new(), Vec::new());
        let saw = self.create_node(
            ModuleSpec::Saw { sample_rate },
            Vec::new(),
            wire_output(note_pitch),
        );
        let filter_out = self.create_node(
            ModuleSpec::Biquad { sample_rate },
            wire_output(saw),
            wire_outputs(&[control_map.cutoff, control_map.reso]),
        );
        let adsr = self.create_node(
            ModuleSpec::Adsr,
            Vec::new(),
            wire_outputs(
                &[control_map.attack, control_map.decay, control_map.sustain, control_map.release],
            ),
        );
        let env_out = self.create_node(
            ModuleSpec::Gain,
            wire_output(filter_out),
            wire_output(adsr),
        );
        let ext_gain = self.create_node(
            ModuleSpec::ConstCtrl(Level::whole(-2)),
            Vec::new(),
            Vec::new(),
        );
        let ext_atten = self.create_node(
            ModuleSpec::Gain,
            wire_output(control_map.ext),
            wire_output(ext_gain),
        );
        let monitor_in = self.create_node(
            ModuleSpec::Sum,
            wire_outputs(&[env_out, ext_atten]),
            Vec::new(),
        );
        let monitor = self.create_node(ModuleSpec::Monitor, wire_output(monitor_in), Vec::new());
        let ghost b = old(self)@.next_id as int;
        assert(Seq::<(usize, usize)>::empty() =~= seq![]);
        assert(self@.outbox =~= old(self)@.outbox + voice_msgs(control_map@, b, sample_rate));
        let mut receivers: Vec<usize> = Vec::new();
        std::mem::swap(&mut receivers, &mut control_map.note_receivers[voice_number]);
        receivers.push(note_pitch);
        receivers.push(adsr);
        assert(receivers@ =~= cm0.note_receivers[voice_number as int] + voice_receivers(b));
        std::mem::swap(&mut receivers, &mut control_map.note_receivers[voice_number]);
        assert(control_map@.note_receivers =~= cm0.note_receivers.update(
            voice_number as int,
            cm0.note_receivers[voice_number as int] + voice_receivers(b),
        ));
        (control_map, monitor)
    }

    /// Hands out a fresh identifier without creating a node.
    pub fn alloc_id(&mut self) -> (id: usize)
        requires
            old(self)@.next_id < usize::MAX,
        ensures
            id == old(self)@.next_id,
            final(self)@ == (CoreView { next_id: (id + 1) as usize, ..old(self)@ }),
    {
        let id = self.next_id;
        self.next_id = id + 1;
        id
    }

    /// (Re)creates node `sum_node` as the sum of output slot 0 of each of `outputs`.
    pub fn update_sum_node(&mut self, sum_node: usize, outputs: &[usize])
        ensures
            final(self)@ == (CoreView {
                outbox: old(self)@.outbox.push(sum_msg(sum_node as int, outputs@)),
                ..old(self)@
            }),
    {
        let buf_wiring = wire_outputs(outputs);
        self.send_node(sum_node, ModuleSpec::Sum, buf_wiring, Vec::new());
        assert(Seq::<(usize, usize)>::empty() =~= seq![]);
    }

    /// Creates an oscillator of kind `ty` driven by its own pitch control at
    /// 440 Hz, and returns the oscillator's identifier.
    pub fn instantiate_module(&mut self, _node_id: NodeId, ty: ModuleType) -> (r: usize)
        requires
            old(self)@.next_id + MODULE_NODES <= usize::MAX,
        ensures
            r == old(self)@.next_id + 1,
            final(self)@ == (CoreView {
                next_id: (old(self)@.next_id + MODULE_NODES) as usize,
                outbox: old(self)@.outbox + module_msgs(ty, old(self)@.next_id as int, old(self)@.sample_rate),
                ..old(self)@
            }),
    {
        let sample_rate = self.sample_rate;
        let osc = match ty {
            ModuleType::Sin => ModuleSpec::Sin { sample_rate },
            ModuleType::Saw => ModuleSpec::Saw { sample_rate },
        };
        let pitch = self.create_node(ModuleSpec::SmoothCtrl(Level::Log2 { hz: 440 }), Vec::new(), Vec::new());
        let r = self.create_node(osc, Vec::new(), wire_output(pitch));
        assert(Seq::<(usize, usize)>::empty() =~= seq![]);
        assert(self@.outbox =~= old(self)@.outbox + module_msgs(ty, old(self)@.next_id as int, sample_rate));
        r
    }
}


/// The control map of a channel built by `Engine::init_monosynth` from identifier `b` on.
pub open spec fn mono_map(b: int) -> ControlMapView {
    ControlMapView {
        note_receivers: controls_at(b).note_receivers.update(0, voice_receivers(b + CONTROL_NODES)),
        ..controls_at(b)
    }
}

/// Messages of the first `n` channels of `Engine::init_monosynth` from identifier `b` on.
pub open spec fn mono_msgs(b: int, sr: u32, n: nat) -> Seq<MessageView>
    decreases n,
{
    if n == 0 {
        Seq::empty()
    } else {
        let bc = b + (CONTROL_NODES + VOICE_NODES) * (n - 1);
        mono_msgs(b, sr, (n - 1) as nat) + control_msgs(bc) + voice_msgs(
            controls_at(bc),
            bc + CONTROL_NODES,
            sr,
        )
    }
}

/// Monitor taps of the first `n` voices of a channel whose voices start at identifier `b`.
pub open spec fn voice_outputs(b: int, n: nat) -> Seq<usize> {
    Seq::new(n, |v: int| (b + VOICE_NODES * v + 8) as usize)
}

/// Messages of the first `n` voices of a channel whose voices start at identifier `b`.
pub open spec fn voices_msgs(cm: ControlMapView, b: int, sr: u32, n: nat) -> Seq<MessageView>
    decreases n,
{
    if n == 0 {
        Seq::empty()
    } else {
        voices_msgs(cm, b, sr, (n - 1) as nat) + voice_msgs(cm, b + VOICE_NODES * (n - 1), sr)
    }
}

/// Note receivers of the first `n` voices of a channel whose voices start at identifier `b`.
pub open spec fn poly_receivers(b: int, n: nat) -> Seq<Seq<usize>> {
    Seq::new(n, |v: int| voice_receivers(b + VOICE_NODES * v))
}

/// Identifier of the sum of the voices of the channel built from identifier `b` on.
pub open spec fn channel_bus(b: int) -> int {
    b + CHANNEL_NODES - 1
}

/// Messages of one channel of `Engine::init_polysynth` built from identifier `b` on.
pub open spec fn channel_msgs(b: int, sr: u32) -> Seq<MessageView> {
    control_msgs(b) + voices_msgs(controls_at(b), b + CONTROL_NODES, sr, VOICE_COUNT as nat)
        + seq![sum_msg(channel_bus(b), voice_outputs(b + CONTROL_NODES, VOICE_COUNT as nat))]
}

/// The control map of a channel of `Engine::init_polysynth` built from identifier `b` on.
pub open spec fn poly_map(b: int) -> ControlMapView {
    ControlMapView {
        note_receivers: poly_receivers(b + CONTROL_NODES, VOICE_COUNT as nat),
        ..controls_at(b)
    }
}

/// Messages of the first `n` channels of `Engine::init_polysynth` from identifier `b` on.
pub open spec fn channels_msgs(b: int, sr: u32, n: nat) -> Seq<MessageView>
    decreases n,
{
    if n == 0 {
        Seq::empty()
    } else {
        channels_msgs(b, sr, (n - 1) as nat) + channel_msgs(b + CHANNEL_NODES * (n - 1), sr)
    }
}

/// Channel buses of the first `n` channels built from identifier `b` on.
pub open spec fn channel_buses(b: int, n: nat) -> Seq<usize> {
    Seq::new(n, |c: int| channel_bus(b + CHANNEL_NODES * c) as usize)
}

/// All messages of `Engine::init_polysynth` from identifier `b` on: the
/// channels, then the master bus over the channel buses.
pub open spec fn poly_msgs(b: int, sr: u32) -> Seq<MessageView> {
    channels_msgs(b, sr, CHANNEL_COUNT as nat) + seq![
        sum_msg(0, channel_buses(b, CHANNEL_COUNT as nat)),
    ]
}

/// The change of parameter 0 of node `ix` to `value` between `lo` and `hi`, at `ts`.
pub open spec fn set_param_msg(ix: usize, lo: Level, hi: Level, value: Fraction, ts: u64) -> MessageView {
    MessageView::SetParam {
        ix,
        param_ix: 0,
        value: ParamValue { lo, hi, at: value },
        timestamp: ts,
    }
}

/// The interface from the application to the audio engine: the graph
/// builder, the per-channel control maps and the focused channel.
pub struct Engine {
    core: Core,
    current_channel: usize,
    max_channels: usize,
    control_maps: Vec<Option<ControlMap>>,
}

pub struct EngineView {
    pub core: CoreView,
    /// The channel that global control surfaces address.
    pub current_channel: usize,
    /// Channels that can be focused.
    pub max_channels: usize,
    /// The control map of each channel, once built.
    pub control_maps: Seq<Option<ControlMapView>>,
}

pub open spec fn map_view(m: Option<ControlMap>) -> Option<ControlMapView> {
    match m {
        Some(cm) => Some(cm@),
        None => None,
    }
}

impl View for Engine {
    type V = EngineView;

    closed spec fn view(&self) -> EngineView {
        EngineView {
            core: self.core@,
            current_channel: self.current_channel,
            max_channels: self.max_channels,
            control_maps: self.control_maps@.map_values(|m: Option<ControlMap>| map_view(m)),
        }
    }
}

impl EngineView {
    pub open spec fn wf(self) -> bool {
        &&& self.control_maps.len() == CHANNEL_COUNT
        &&& 1 <= self.max_channels <= CHANNEL_COUNT
        &&& self.current_channel < self.max_channels
        &&& forall|c: int| #![trigger self.control_maps[c]]
            0 <= c < CHANNEL_COUNT && self.control_maps[c] is Some ==> self.control_maps[c]->0.wf()
    }

    /// The control map of `channel` has been built.
    pub open spec fn has_channel(self, channel: int) -> bool {
        0 <= channel < self.control_maps.len() && self.control_maps[channel] is Some
    }

    /// The same engine with `msgs` appended to the outbox.
    pub open spec fn sent(self, msgs: Seq<MessageView>) -> EngineView {
        EngineView { core: CoreView { outbox: self.core.outbox + msgs, ..self.core }, ..self }
    }
}

impl Engine {
    /// An engine with identifier 0 reserved for the master bus, no channel
    /// built yet and channel 0 focused.
    pub fn new(sample_rate: u32) -> (r: Engine)
        ensures
            r@.wf(),
            r@ == (EngineView {
                core: CoreView { sample_rate, next_id: 1, outbox: Seq::empty() },
                current_channel: 0,
                max_channels: 1,
                control_maps: Seq::new(CHANNEL_COUNT as nat, |c: int| None),
            }),
    {
        let core = Core::new(sample_rate);
        let mut control_maps: Vec<Option<ControlMap>> = Vec::new();
        let mut c: usize = 0;
        while c < CHANNEL_COUNT
            invariant
                c <= CHANNEL_COUNT,
                control_maps.len() == c,
                forall|k: int| 0 <= k < c ==> (#[trigger] control_maps@[k]) is None,
            decreases CHANNEL_COUNT - c,
        {
            control_maps.push(None);
            c += 1;
        }
        let r = Engine { core, current_channel: 0, max_channels: 1, control_maps };
        assert(r@.control_maps =~= Seq::new(CHANNEL_COUNT as nat, |c: int| None));
        r
    }

    /// Appends a message to the outbox.
    pub fn send(&mut self, msg: Message)
        ensures
            final(self)@ == old(self)@.sent(seq![msg@]),
    {
        self.core.send(msg);
        assert(old(self)@.core.outbox.push(msg@) =~= old(self)@.core.outbox + seq![msg@]);
    }

    /// Hands over the messages sent so far and leaves the outbox empty.
    pub fn take_messages(&mut self) -> (r: Vec<Message>)
        ensures
            views(r@) == old(self)@.core.outbox,
            final(self)@ == (EngineView {
                core: CoreView { outbox: Seq::empty(), ..old(self)@.core },
                ..old(self)@
            }),
    {
        self.core.take_messages()
    }

    /// Builds every channel as a single voice wired to its own controls,
    /// and makes every channel selectable.
    pub fn init_monosynth(&mut self)
        requires
            old(self)@.wf(),
            old(self)@.core.next_id + MONOSYNTH_NODES <= usize::MAX,
        ensures
            final(self)@.wf(),
            ({
                let b = old(self)@.core.next_id as int;
                final(self)@ == (EngineView {
                    core: CoreView {
                        next_id: (b + MONOSYNTH_NODES) as usize,
                        outbox: old(self)@.core.outbox + mono_msgs(
                            b,
                            old(self)@.core.sample_rate,
                            CHANNEL_COUNT as nat,
                        ),
                        ..old(self)@.core
                    },
                    max_channels: CHANNEL_COUNT,
                    control_maps: Seq::new(
                        CHANNEL_COUNT as nat,
                        |c: int| Some(mono_map(b + (CONTROL_NODES + VOICE_NODES) * c)),
                    ),
                    ..old(self)@
                })
            }),
    {
        let ghost b = old(self)@.core.next_id as int;
        let ghost sr = old(self)@.core.sample_rate;
        self.max_channels = CHANNEL_COUNT;
        let mut c: usize = 0;
        while c < CHANNEL_COUNT
            invariant
                c <= CHANNEL_COUNT,
                self.max_channels == CHANNEL_COUNT,
                self.current_channel == old(self).current_channel,
                self.current_channel < CHANNEL_COUNT,
                self.control_maps.len() == CHANNEL_COUNT,
                self.core@.sample_rate == sr,
                self.core@.next_id == b + (CONTROL_NODES + VOICE_NODES) * c,
                b + MONOSYNTH_NODES <= usize::MAX,
                self.core@.outbox == old(self)@.core.outbox + mono_msgs(b, sr, c as nat),
                forall|k: int| 0 <= k < c ==> map_view(#[trigger] self.control_maps@[k]) == Some(
                    mono_map(b + (CONTROL_NODES + VOICE_NODES) * k),
                ),
            decreases CHANNEL_COUNT - c,
        {
            let ghost bc = self.core@.next_id as int;
            assert((CONTROL_NODES + VOICE_NODES) * c + CONTROL_NODES + VOICE_NODES <= MONOSYNTH_NODES) by (nonlinear_arith)
                requires
                    c < CHANNEL_COUNT,
            ;
            let control_map = self.core.init_controls();
            assert(control_map.note_receivers@.len() == control_map@.note_receivers.len());
            let (control_map, _) = self.core.init_monosynth(0, control_map);
            assert(control_map@.note_receivers =~= mono_map(bc).note_receivers);
            self.control_maps.set(c, Some(control_map));
            c += 1;
            assert(self.core@.outbox =~= old(self)@.core.outbox + mono_msgs(b, sr, c as nat));
        }
        assert(self@.control_maps =~= Seq::new(
            CHANNEL_COUNT as nat,
            |c: int| Some(mono_map(b + (CONTROL_NODES + VOICE_NODES) * c)),
        ));
    }

    /// Builds every channel as `VOICE_COUNT` voices sharing the channel's
    /// controls and summed into a channel bus, sums the channel buses into
    /// the master bus (identifier 0), and makes every channel selectable.
    pub fn init_polysynth(&mut self)
        requires
            old(self)@.wf(),
            old(self)@.core.next_id + POLYSYNTH_NODES <= usize::MAX,
        ensures
            final(self)@.wf(),
            ({
                let b = old(self)@.core.next_id as int;
                final(self)@ == (EngineView {
                    core: CoreView {
                        next_id: (b + POLYSYNTH_NODES) as usize,
                        outbox: old(self)@.core.outbox + poly_msgs(b, old(self)@.core.sample_rate),
                        ..old(self)@.core
                    },
                    max_channels: CHANNEL_COUNT,
                    control_maps: Seq::new(
                        CHANNEL_COUNT as nat,
                        |c: int| Some(poly_map(b + CHANNEL_NODES * c)),
                    ),
                    ..old(self)@
                })
            }),
    {
        let ghost b = old(self)@.core.next_id as int;
        let ghost sr = old(self)@.core.sample_rate;
        let mut ch_outputs: Vec<usize> = Vec::new();
        self.max_channels = CHANNEL_COUNT;
        let mut c: usize = 0;
        while c < CHANNEL_COUNT
            invariant
                c <= CHANNEL_COUNT,
                self.max_channels == CHANNEL_COUNT,
                self.current_channel == old(self).current_channel,
                self.current_channel < CHANNEL_COUNT,
                self.control_maps.len() == CHANNEL_COUNT,
                self.core@.sample_rate == sr,
                self.core@.next_id == b + CHANNEL_NODES * c,
                b + POLYSYNTH_NODES <= usize::MAX,
                self.core@.outbox == old(self)@.core.outbox + channels_msgs(b, sr, c as nat),
                ch_outputs@ == channel_buses(b, c as nat),
                forall|k: int| 0 <= k < c ==> map_view(#[trigger] self.control_maps@[k]) == Some(
                    poly_map(b + CHANNEL_NODES * k),
                ),
            decreases CHANNEL_COUNT - c,
        {
            let ghost bc = self.core@.next_id as int;
            let ghost o = self.core@.outbox;
            assert(CHANNEL_NODES * c + CHANNEL_NODES <= POLYSYNTH_NODES) by (nonlinear_arith)
                requires
                    c < CHANNEL_COUNT,
            ;
            let mut taps: Vec<usize> = Vec::new();
            let mut control_map = self.core.init_controls();
            let ghost cm0 = control_map@;
            assert(poly_receivers(bc + CONTROL_NODES, 0) + cm0.note_receivers.subrange(
                0,
                VOICE_COUNT as int,
            ) =~= cm0.note_receivers);
            assert(self.core@.outbox =~= o + control_msgs(bc) + voices_msgs(
                cm0,
                bc + CONTROL_NODES,
                sr,
                0,
            ));
            let mut v: usize = 0;
            while v < VOICE_COUNT
                invariant
                    v <= VOICE_COUNT,
                    c < CHANNEL_COUNT,
                    self.max_channels == CHANNEL_COUNT,
                    self.current_channel == old(self).current_channel,
                    self.control_maps.len() == CHANNEL_COUNT,
                    ch_outputs@ == channel_buses(b, c as nat),
                    forall|k: int| 0 <= k < c ==> map_view(#[trigger] self.control_maps@[k]) == Some(
                        poly_map(b + CHANNEL_NODES * k),
                    ),
                    bc == b + CHANNEL_NODES * c,
                    bc + CHANNEL_NODES <= usize::MAX,
                    cm0 == controls_at(bc),
                    self.core@.sample_rate == sr,
                    self.core@.next_id == bc + CONTROL_NODES + VOICE_NODES * v,
                    self.core@.outbox == o + control_msgs(bc) + voices_msgs(
                        cm0,
                        bc + CONTROL_NODES,
                        sr,
                        v as nat,
                    ),
                    taps@ == voice_outputs(bc + CONTROL_NODES, v as nat),
                    control_map@ == (ControlMapView {
                        note_receivers: poly_receivers(bc + CONTROL_NODES, v as nat) + cm0.note_receivers.subrange(
                            v as int,
                            VOICE_COUNT as int,
                        ),
                        ..cm0
                    }),
                decreases VOICE_COUNT - v,
            {
                assert(VOICE_NODES * v + VOICE_NODES <= VOICE_NODES * VOICE_COUNT) by (nonlinear_arith)
                    requires
                        v < VOICE_COUNT,
                ;
                assert(control_map.note_receivers@.len() == control_map@.note_receivers.len());
                let ghost cmv = control_map@;
                let (cm, tap) = self.core.init_monosynth(v, control_map);
                control_map = cm;
                assert(voice_msgs(cmv, bc + CONTROL_NODES + VOICE_NODES * v, sr) == voice_msgs(
                    cm0,
                    bc + CONTROL_NODES + VOICE_NODES * v,
                    sr,
                ));
                taps.push(tap);
                v += 1;
                assert(taps@ =~= voice_outputs(bc + CONTROL_NODES, v as nat));
                assert(control_map@.note_receivers =~= poly_receivers(bc + CONTROL_NODES, v as nat) + cm0.note_receivers.subrange(
                    v as int,
                    VOICE_COUNT as int,
                ));
                assert(self.core@.outbox =~= o + control_msgs(bc) + voices_msgs(
                    cm0,
                    bc + CONTROL_NODES,
                    sr,
                    v as nat,
                ));
            }
            let id = self.core.alloc_id();
            self.core.update_sum_node(id, taps.as_slice());
            ch_outputs.push(id);
            assert(control_map@.note_receivers =~= poly_map(bc).note_receivers);
            self.control_maps.set(c, Some(control_map));
            c += 1;
            assert(CHANNEL_NODES * c == CHANNEL_NODES * (c - 1) + CHANNEL_NODES) by (nonlinear_arith);
            assert(ch_outputs@ =~= channel_buses(b, c as nat));
            assert(self.core@.outbox =~= old(self)@.core.outbox + channels_msgs(b, sr, c as nat));
        }
        self.core.update_sum_node(0, ch_outputs.as_slice());
        assert(self@.control_maps =~= Seq::new(
            CHANNEL_COUNT as nat,
            |c: int| Some(poly_map(b + CHANNEL_NODES * c)),
        ));
        assert(self.core@.outbox =~= old(self)@.core.outbox + poly_msgs(b, sr));
    }

    /// Creates an oscillator of kind `ty` with its own pitch control and
    /// returns the oscillator's identifier.
    pub fn instantiate_module(&mut self, node_id: NodeId, ty: ModuleType) -> (r: usize)
        requires
            old(self)@.core.next_id + MODULE_NODES <= usize::MAX,
        ensures
            r == old(self)@.core.next_id + 1,
            final(self)@ == (EngineView {
                core: CoreView {
                    next_id: (old(self)@.core.next_id + MODULE_NODES) as usize,
                    ..old(self)@.core
                },
                ..old(self)@
            }.sent(module_msgs(ty, old(self)@.core.next_id as int, old(self)@.core.sample_rate))),
    {
        self.core.instantiate_module(node_id, ty)
    }

    /// Rewires the master bus (identifier 0) to sum `outputs`.
    pub fn set_outputs(&mut self, outputs: &[usize])
        ensures
            final(self)@ == old(self)@.sent(seq![sum_msg(0, outputs@)]),
    {
        self.core.update_sum_node(0, outputs);
        assert(old(self)@.core.outbox.push(sum_msg(0, outputs@)) =~= old(self)@.core.outbox + seq![
            sum_msg(0, outputs@),
        ]);
    }

    /// A copy of the control map of the focused channel.
    pub fn get_current_control_map(&self) -> (r: ControlMap)
        requires
            self@.wf(),
            self@.has_channel(self@.current_channel as int),
        ensures
            Some(r@) == self@.control_maps[self@.current_channel as int],
    {
        self.get_control_map(self.current_channel)
    }

    /// A copy of the control map of `channel`.
    pub fn get_control_map(&self, channel: usize) -> (r: ControlMap)
        requires
            self@.has_channel(channel as int),
        ensures
            Some(r@) == self@.control_maps[channel as int],
    {
        assert(map_view(self.control_maps@[channel as int]) is Some);
        self.control_maps[channel].as_ref().unwrap().duplicate()
    }

    /// The focused channel.
    pub fn get_current_channel(&self) -> (r: usize)
        ensures
            r == self@.current_channel,
    {
        self.current_channel
    }

    /// Focuses `channel`; a channel that cannot be focused is ignored.
    pub fn set_current_channel(&mut self, channel: usize)
        ensures
            final(self)@ == (EngineView {
                current_channel: if channel < old(self)@.max_channels {
                    channel
                } else {
                    old(self)@.current_channel
                },
                ..old(self)@
            }),
    {
        if channel < self.max_channels {
            self.current_channel = channel;
        }
    }

    /// Sends parameter 0 of node `ix` the point `value` of the segment from
    /// `lo` to `hi`, scheduled at `ts`.
    pub fn set_ctrl_const(&mut self, value: Fraction, lo: Level, hi: Level, ix: usize, ts: u64)
        ensures
            final(self)@ == old(self)@.sent(seq![set_param_msg(ix, lo, hi, value, ts)]),
    {
        let value = ParamValue { lo, hi, at: value };
        self.send(Message::SetParam { ix, param_ix: 0, value, timestamp: ts });
    }
}

} // verus!
