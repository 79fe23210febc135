//! Per-channel step sequencer driven in two alternating phases.
//!
//! On a tick the cursor advances by the stride, modulo the sequence length;
//! the notes of the previous step are released and then the notes of the
//! new step are played, all through the voice allocator. On a tock the
//! notes staged from live input, if any, are committed to the current step.

use vstd::prelude::*;
use crate::config::{CHANNEL_COUNT, MAX_STEPS, VOICE_COUNT};
use crate::engine::Engine;
use crate::note::{alloc_step, play, pools_wf, NoteEvent, NoteModule, Voice};

verus! {

/// A sequencer's state, with its lists as sequences.
pub struct SequencerView {
    pub channel: usize,
    pub bpm: u32,
    pub steps: Seq<Seq<NoteEvent>>,
    pub current_step: usize,
    pub scheduled_notes: Seq<NoteEvent>,
    pub last_played_notes: Seq<NoteEvent>,
    pub step_size: usize,
    pub sequence_length: usize,
}

impl SequencerView {
    pub open spec fn wf(self) -> bool {
        &&& self.steps.len() == MAX_STEPS
        &&& forall|k: int| 0 <= k < MAX_STEPS ==> (#[trigger] self.steps[k]).len() == VOICE_COUNT
        &&& self.scheduled_notes.len() == VOICE_COUNT
        &&& self.last_played_notes.len() == VOICE_COUNT
        &&& 1 <= self.sequence_length <= MAX_STEPS
        &&& self.current_step < self.sequence_length
        &&& self.step_size <= MAX_STEPS
        &&& self.bpm >= 1
    }

    /// The step that the next tick moves to.
    pub open spec fn next_step(self) -> usize {
        ((self.current_step + self.step_size) % (self.sequence_length as int)) as usize
    }

    /// Some staged note is down.
    pub open spec fn any_scheduled(self) -> bool {
        exists|i: int| 0 <= i < self.scheduled_notes.len() && (#[trigger] self.scheduled_notes[i]).down
    }

    /// The events of the next tick: the release of every note last played,
    /// then every slot of the new step as stored.
    pub open spec fn tick_events(self) -> Seq<NoteEvent> {
        note_offs(self.last_played_notes) + self.steps[self.next_step() as int]
    }

    /// The state after a tick.
    pub open spec fn after_tick(self) -> SequencerView {
        SequencerView {
            current_step: self.next_step(),
            last_played_notes: replay_notes(self.last_played_notes, self.steps[self.next_step() as int]),
            ..self
        }
    }

    /// The state after a tock.
    pub open spec fn after_tock(self) -> SequencerView {
        if self.any_scheduled() {
            SequencerView {
                steps: self.steps.update(self.current_step as int, self.scheduled_notes),
                scheduled_notes: released(self.scheduled_notes),
                ..self
            }
        } else {
            self
        }
    }

    /// The state after live input with voices `vs` was staged.
    pub open spec fn after_capture(self, vs: Seq<Voice>) -> SequencerView {
        SequencerView { scheduled_notes: captured(self.scheduled_notes, vs), ..self }
    }
}

/// The release of each of `notes`: the same events, up and with velocity 0.
pub open spec fn note_offs(notes: Seq<NoteEvent>) -> Seq<NoteEvent> {
    notes.map_values(|e: NoteEvent| NoteEvent { down: false, velocity: 0, ..e })
}

/// The same events, all up.
pub open spec fn released(notes: Seq<NoteEvent>) -> Seq<NoteEvent> {
    notes.map_values(|e: NoteEvent| NoteEvent { down: false, ..e })
}

/// `last` with the pitch of each slot taken from `step`.
pub open spec fn replay_notes(last: Seq<NoteEvent>, step: Seq<NoteEvent>) -> Seq<NoteEvent> {
    Seq::new(last.len(), |i: int| NoteEvent { note: step[i].note, ..last[i] })
}

/// `staged` with each slot whose voice holds a note replaced by that note, down.
pub open spec fn captured(staged: Seq<NoteEvent>, vs: Seq<Voice>) -> Seq<NoteEvent> {
    Seq::new(
        staged.len(),
        |i: int|
            if vs[i].note is Some {
                NoteEvent {
                    down: true,
                    note: vs[i].note->0,
                    velocity: vs[i].velocity,
                    timestamp: vs[i].timestamp,
                }
            } else {
                staged[i]
            },
    )
}

/// Plays `evs` in turn on `channel` through the allocator.
fn play_events(note_module: &mut NoteModule, engine: &mut Engine, evs: &Vec<NoteEvent>, channel: usize)
    requires
        pools_wf(old(note_module)@),
        old(engine)@.wf(),
        channel < CHANNEL_COUNT,
        old(engine)@.has_channel(channel as int),
    ensures
        pools_wf(final(note_module)@),
        ({
            let r = play(
                old(note_module)@[channel as int],
                old(engine)@.control_maps[channel as int]->0.note_receivers,
                evs@,
            );
            &&& final(note_module)@ == old(note_module)@.update(channel as int, r.0)
            &&& final(engine)@ == old(engine)@.sent(r.1)
        }),
{
    let ghost nm0 = note_module@;
    let ghost e0 = engine@;
    let ghost targets = e0.control_maps[channel as int]->0.note_receivers;
    let mut i: usize = 0;
    assert(evs@.take(0) =~= Seq::<NoteEvent>::empty());
    assert(e0.core.outbox + Seq::empty() =~= e0.core.outbox);
    while i < evs.len()
        invariant
            i <= evs.len(),
            channel < CHANNEL_COUNT,
            pools_wf(note_module@),
            engine@.wf(),
            engine@.control_maps == e0.control_maps,
            e0.has_channel(channel as int),
            pools_wf(nm0),
            targets == e0.control_maps[channel as int]->0.note_receivers,
            engine@ == e0.sent(play(nm0[channel as int], targets, evs@.take(i as int)).1),
            note_module@ == nm0.update(
                channel as int,
                play(nm0[channel as int], targets, evs@.take(i as int)).0,
            ),
        decreases evs.len() - i,
    {
        let ghost before = play(nm0[channel as int], targets, evs@.take(i as int));
        note_module.note_event(engine, evs[i], channel);
        i += 1;
        assert(evs@.take(i as int).drop_last() =~= evs@.take(i - 1));
        assert(evs@.take(i as int).last() == evs@[i - 1]);
        let ghost step = alloc_step(before.0, targets, evs@[i - 1]);
        assert(play(nm0[channel as int], targets, evs@.take(i as int)) == (step.0, before.1 + step.1));
        assert(note_module@ =~= nm0.update(
            channel as int,
            play(nm0[channel as int], targets, evs@.take(i as int)).0,
        ));
        assert(e0.core.outbox + before.1 + step.1 =~= e0.core.outbox + (before.1 + step.1));
    }
    assert(evs@.take(i as int) =~= evs@);
}

/// A copy of a list of note events.
fn copy_events(evs: &Vec<NoteEvent>) -> (r: Vec<NoteEvent>)
    ensures
        r@ == evs@,
{
    let mut r: Vec<NoteEvent> = Vec::new();
    let mut i: usize = 0;
    while i < evs.len()
        invariant
            i <= evs.len(),
            r@ =~= evs@.subrange(0, i as int),
        decreases evs.len() - i,
    {
        r.push(evs[i]);
        i += 1;
    }
    assert(evs@.subrange(0, i as int) =~= evs@);
    r
}

/// A step grid with its cursor, tempo, staging buffer and the notes last played.
pub struct Sequencer {
    channel: usize,
    bpm: u32,
    steps: Vec<Vec<NoteEvent>>,
    current_step: usize,
    scheduled_notes: Vec<NoteEvent>,
    last_played_notes: Vec<NoteEvent>,
    step_size: usize,
    sequence_length: usize,
}

impl View for Sequencer {
    type V = SequencerView;

    closed spec fn view(&self) -> SequencerView {
        SequencerView {
            channel: self.channel,
            bpm: self.bpm,
            steps: self.steps@.map_values(|s: Vec<NoteEvent>| s@),
            current_step: self.current_step,
            scheduled_notes: self.scheduled_notes@,
            last_played_notes: self.last_played_notes@,
            step_size: self.step_size,
            sequence_length: self.sequence_length,
        }
    }
}

/// `VOICE_COUNT` empty slots.
fn empty_notes() -> (r: Vec<NoteEvent>)
    ensures
        r@ == Seq::new(VOICE_COUNT as nat, |i: int| NoteEvent::spec_none()),
{
    let mut r: Vec<NoteEvent> = Vec::new();
    let mut i: usize = 0;
    while i < VOICE_COUNT
        invariant
            i <= VOICE_COUNT,
            r@ =~= Seq::new(i as nat, |i: int| NoteEvent::spec_none()),
        decreases VOICE_COUNT - i,
    {
        r.push(NoteEvent::none());
        i += 1;
    }
    r
}

impl Sequencer {
    /// A sequencer for `channel` at `bpm` beats per minute whose active
    /// sequence is the first `sequence_length` steps, all rests, with the
    /// cursor on step 0 and a stride of one step.
    pub fn new(channel: usize, bpm: u32, sequence_length: usize) -> (r: Sequencer)
        requires
            bpm >= 1,
            1 <= sequence_length <= MAX_STEPS,
        ensures
            r@.wf(),
            r@ == (SequencerView {
                channel,
                bpm,
                steps: Seq::new(
                    MAX_STEPS as nat,
                    |k: int| Seq::new(VOICE_COUNT as nat, |i: int| NoteEvent::spec_none()),
                ),
                current_step: 0,
                scheduled_notes: Seq::new(VOICE_COUNT as nat, |i: int| NoteEvent::spec_none()),
                last_played_notes: Seq::new(VOICE_COUNT as nat, |i: int| NoteEvent::spec_none()),
                step_size: 1,
                sequence_length,
            }),
    {
        let mut steps: Vec<Vec<NoteEvent>> = Vec::new();
        let mut k: usize = 0;
        while k < MAX_STEPS
            invariant
                k <= MAX_STEPS,
                steps.len() == k,
                forall|j: int| 0 <= j < k ==> (#[trigger] steps@[j])@ == Seq::new(
                    VOICE_COUNT as nat,
                    |i: int| NoteEvent::spec_none(),
                ),
            decreases MAX_STEPS - k,
        {
            steps.push(empty_notes());
            k += 1;
        }
        let r = Sequencer {
            channel,
            bpm,
            steps,
            current_step: 0,
            scheduled_notes: empty_notes(),
            last_played_notes: empty_notes(),
            step_size: 1,
            sequence_length,
        };
        assert(r@.steps =~= Seq::new(
            MAX_STEPS as nat,
            |k: int| Seq::new(VOICE_COUNT as nat, |i: int| NoteEvent::spec_none()),
        ));
        r
    }

    /// Stages every note that a voice of channel 0 holds, in that voice's slot.
    pub fn update_notes(&mut self, note_module: &NoteModule)
        requires
            old(self)@.wf(),
            pools_wf(note_module@),
        ensures
            final(self)@ == old(self)@.after_capture(note_module@[0]),
            final(self)@.wf(),
    {
        let voices = note_module.get_voices(0);
        assert(old(self)@.scheduled_notes =~= captured(old(self)@.scheduled_notes, voices@).take(0)
            + old(self)@.scheduled_notes.skip(0));
        let mut i: usize = 0;
        while i < voices.len()
            invariant
                i <= voices.len() == VOICE_COUNT,
                voices@ == note_module@[0],
                self@ == (SequencerView {
                    scheduled_notes: captured(old(self)@.scheduled_notes, voices@).take(i as int)
                        + old(self)@.scheduled_notes.skip(i as int),
                    ..old(self)@
                }),
                old(self)@.scheduled_notes.len() == VOICE_COUNT,
            decreases voices.len() - i,
        {
            match voices[i].note {
                Some(n) => {
                    self.scheduled_notes.set(
                        i,
                        NoteEvent {
                            down: true,
                            note: n,
                            velocity: voices[i].velocity,
                            timestamp: voices[i].timestamp,
                        },
                    );
                },
                None => {},
            }
            i += 1;
            assert(self.scheduled_notes@ =~= captured(old(self)@.scheduled_notes, voices@).take(i as int)
                + old(self)@.scheduled_notes.skip(i as int));
        }
        assert(self.scheduled_notes@ =~= captured(old(self)@.scheduled_notes, voices@));
    }

    /// Advances the cursor and plays the step reached: first the release of
    /// every note last played, then every slot of the new step as stored.
    pub fn tick(&mut self, engine: &mut Engine, note_module: &mut NoteModule)
        requires
            old(self)@.wf(),
            pools_wf(old(note_module)@),
            old(engine)@.wf(),
            old(self)@.channel < CHANNEL_COUNT,
            old(engine)@.has_channel(old(self)@.channel as int),
        ensures
            final(self)@ == old(self)@.after_tick(),
            final(self)@.wf(),
            pools_wf(final(note_module)@),
            ({
                let ch = old(self)@.channel as int;
                let r = play(
                    old(note_module)@[ch],
                    old(engine)@.control_maps[ch]->0.note_receivers,
                    old(self)@.tick_events(),
                );
                &&& final(note_module)@ == old(note_module)@.update(ch, r.0)
                &&& final(engine)@ == old(engine)@.sent(r.1)
            }),
    {
        let ghost s0 = self@;
        let mut events: Vec<NoteEvent> = Vec::new();
        let mut i: usize = 0;
        while i < self.last_played_notes.len()
            invariant
                i <= self.last_played_notes.len(),
                self@ == s0,
                events@ =~= note_offs(s0.last_played_notes).take(i as int),
            decreases self.last_played_notes.len() - i,
        {
            let e = self.last_played_notes[i];
            events.push(NoteEvent { down: false, velocity: 0, ..e });
            i += 1;
        }
        self.step();
        assert(s0.next_step() < s0.sequence_length) by {
            assert((s0.current_step + s0.step_size) % (s0.sequence_length as int) < s0.sequence_length)
                by (nonlinear_arith)
                requires
                    s0.sequence_length >= 1,
                    s0.current_step + s0.step_size >= 0,
            ;
        }
        let cur = self.current_step;
        let notes = copy_events(&self.steps[cur]);
        assert(notes@ == s0.steps[cur as int]);
        let mut i: usize = 0;
        while i < notes.len()
            invariant
                i <= notes.len() == VOICE_COUNT,
                notes@ == s0.steps[s0.next_step() as int],
                events@ =~= note_offs(s0.last_played_notes) + notes@.take(i as int),
            decreases notes.len() - i,
        {
            events.push(notes[i]);
            i += 1;
        }
        assert(events@ =~= s0.tick_events());
        play_events(note_module, engine, &events, self.channel);
        assert(s0.last_played_notes =~= replay_notes(s0.last_played_notes, notes@).take(0)
            + s0.last_played_notes.skip(0));
        let mut i: usize = 0;
        while i < notes.len()
            invariant
                i <= notes.len() == VOICE_COUNT,
                notes@ == s0.steps[s0.next_step() as int],
                s0.wf(),
                self@ == (SequencerView {
                    current_step: s0.next_step(),
                    last_played_notes: replay_notes(s0.last_played_notes, notes@).take(i as int)
                        + s0.last_played_notes.skip(i as int),
                    ..s0
                }),
            decreases notes.len() - i,
        {
            let e = self.last_played_notes[i];
            self.last_played_notes.set(i, NoteEvent { note: notes[i].note, ..e });
            i += 1;
            assert(self.last_played_notes@ =~= replay_notes(s0.last_played_notes, notes@).take(i as int)
                + s0.last_played_notes.skip(i as int));
        }
        assert(self.last_played_notes@ =~= replay_notes(s0.last_played_notes, notes@));
    }

    /// Commits the staged notes to the current step and releases them in
    /// the staging buffer, when any of them is down; otherwise changes nothing.
    pub fn tock(&mut self, _engine: &mut Engine, _note_module: &mut NoteModule)
        requires
            old(self)@.wf(),
        ensures
            final(self)@ == old(self)@.after_tock(),
            final(self)@.wf(),
            *final(_engine) == *old(_engine),
            *final(_note_module) == *old(_note_module),
    {
        if self.any_scheduled_notes() {
            let ghost s0 = self@;
            let cur = self.current_step;
            let staged = copy_events(&self.scheduled_notes);
            self.steps.set(cur, staged);
            assert(s0.scheduled_notes =~= released(s0.scheduled_notes).take(0) + s0.scheduled_notes.skip(0));
            assert(self@.steps =~= s0.steps.update(cur as int, s0.scheduled_notes));
            let mut i: usize = 0;
            while i < self.scheduled_notes.len()
                invariant
                    i <= self.scheduled_notes.len() == VOICE_COUNT,
                    s0.wf(),
                    self@ == (SequencerView {
                        steps: s0.steps.update(cur as int, s0.scheduled_notes),
                        scheduled_notes: released(s0.scheduled_notes).take(i as int)
                            + s0.scheduled_notes.skip(i as int),
                        ..s0
                    }),
                decreases self.scheduled_notes.len() - i,
            {
                let e = self.scheduled_notes[i];
                self.scheduled_notes.set(i, NoteEvent { down: false, ..e });
                i += 1;
                assert(self.scheduled_notes@ =~= released(s0.scheduled_notes).take(i as int)
                    + s0.scheduled_notes.skip(i as int));
            }
            assert(self.scheduled_notes@ =~= released(s0.scheduled_notes));
            assert(self@.steps =~= s0.steps.update(cur as int, s0.scheduled_notes));
        }
    }

    /// Moves the cursor by the stride, modulo the sequence length.
    fn step(&mut self)
        requires
            old(self)@.wf(),
        ensures
            final(self)@ == (SequencerView { current_step: old(self)@.next_step(), ..old(self)@ }),
    {
        self.current_step = self.get_next_step();
    }

    /// The step that the next tick moves to.
    pub fn get_next_step(&self) -> (r: usize)
        requires
            self@.wf(),
        ensures
            r == self@.next_step(),
    {
        (self.current_step + self.step_size) % self.sequence_length
    }

    /// The tempo in beats per minute.
    pub fn get_bpm(&self) -> (r: u32)
        ensures
            r == self@.bpm,
    {
        self.bpm
    }

    /// A copy of the slots of the current step.
    pub fn get_current_steps(&self) -> (r: Vec<NoteEvent>)
        requires
            self@.wf(),
        ensures
            r@ == self@.steps[self@.current_step as int],
    {
        copy_events(&self.steps[self.current_step])
    }

    /// Whether some staged note is down.
    pub fn any_scheduled_notes(&self) -> (r: bool)
        ensures
            r == self@.any_scheduled(),
    {
        let mut scheduled_notes = false;
        let mut i: usize = 0;
        while i < self.scheduled_notes.len()
            invariant
                i <= self.scheduled_notes.len(),
                scheduled_notes == exists|j: int| 0 <= j < i && (#[trigger] self@.scheduled_notes[j]).down,
            decreases self.scheduled_notes.len() - i,
        {
            if self.scheduled_notes[i].down {
                assert(self@.scheduled_notes[i as int].down);
                scheduled_notes = true;
            }
            i += 1;
        }
        scheduled_notes
    }
}

/// One thing that can happen to a sequencer.
pub enum SeqOp {
    Tick,
    Tock,
    /// Live input staged from a pool of voices.
    Capture(Seq<Voice>),
}

pub open spec fn apply_op(s: SequencerView, op: SeqOp) -> SequencerView {
    match op {
        SeqOp::Tick => s.after_tick(),
        SeqOp::Tock => s.after_tock(),
        SeqOp::Capture(vs) => s.after_capture(vs),
    }
}

/// The state after each of `ops` in turn.
pub open spec fn apply_ops(s: SequencerView, ops: Seq<SeqOp>) -> SequencerView
    decreases ops.len(),
{
    if ops.len() == 0 {
        s
    } else {
        apply_op(apply_ops(s, ops.drop_last()), ops.last())
    }
}

/// No tock of `ops` comes while the cursor is on step `k`.
pub open spec fn spares_step(s: SequencerView, ops: Seq<SeqOp>, k: usize) -> bool {
    forall|i: int|
        0 <= i < ops.len() && (#[trigger] ops[i]) is Tock ==> apply_ops(s, ops.take(i)).current_step != k
}

/// Every operation keeps a sequencer well formed.
pub proof fn lemma_op_keeps_wf(s: SequencerView, op: SeqOp)
    requires
        s.wf(),
    ensures
        apply_op(s, op).wf(),
{
    assert((s.current_step + s.step_size) % (s.sequence_length as int) < s.sequence_length)
        by (nonlinear_arith)
        requires
            s.sequence_length >= 1,
            s.current_step + s.step_size >= 0,
    ;
    let t = apply_op(s, op);
    assert forall|k: int| 0 <= k < MAX_STEPS implies (#[trigger] t.steps[k]).len() == VOICE_COUNT by {
        if k != s.current_step {
            assert(t.steps[k] == s.steps[k]);
        }
    }
}

/// A note committed by a tock on step `k` stays in step `k` as long as no
/// tock comes on `k` again, and the tick that next reaches `k` plays it as
/// committed, after the release of every note last played.
pub proof fn lemma_committed_step_replays(s: SequencerView, ops: Seq<SeqOp>)
    requires
        s.wf(),
        s.any_scheduled(),
        spares_step(s.after_tock(), ops, s.current_step),
    ensures
        apply_ops(s.after_tock(), ops).wf(),
        apply_ops(s.after_tock(), ops).steps[s.current_step as int] == s.scheduled_notes,
        apply_ops(s.after_tock(), ops).next_step() == s.current_step ==> apply_ops(
            s.after_tock(),
            ops,
        ).tick_events() == note_offs(apply_ops(s.after_tock(), ops).last_played_notes)
            + s.scheduled_notes,
    decreases ops.len(),
{
    lemma_op_keeps_wf(s, SeqOp::Tock);
    if ops.len() > 0 {
        let init = ops.drop_last();
        assert forall|i: int| 0 <= i < init.len() && (#[trigger] init[i]) is Tock implies apply_ops(
            s.after_tock(),
            init.take(i),
        ).current_step != s.current_step by {
            assert(init.take(i) =~= ops.take(i));
            assert(init[i] == ops[i]);
        }
        lemma_committed_step_replays(s, init);
        let before = apply_ops(s.after_tock(), init);
        lemma_op_keeps_wf(before, ops.last());
        assert(ops.take(ops.len() - 1) =~= init);
        assert(ops[ops.len() - 1] == ops.last());
    }
}

} // verus!
