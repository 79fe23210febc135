//! Per-channel voice pools: note events in, `Note` messages out.
//!
//! A note-off releases the first voice (in index order) holding that note.
//! A note-on takes the first free voice; with none free it steals the voice
//! with the smallest timestamp, lowest index first, releasing its note
//! with an explicit off message before the new note's on message.

use vstd::prelude::*;
use crate::config::{CHANNEL_COUNT, VOICE_COUNT};
use crate::control::copy_ids;
use crate::engine::{Engine, EngineView};
use crate::message::{Message, MessageView};

verus! {

/// A note starting or ending.
#[derive(Clone, Copy, Debug, PartialEq, Eq, Structural)]
pub struct NoteEvent {
    pub down: bool,
    /// Pitch in hundredths of a semitone (MIDI note 60 is 6000).
    pub note: i32,
    pub velocity: u8,
    pub timestamp: u64,
}

impl NoteEvent {
    /// The empty slot of a step: a note-off of pitch 0 at time 0.
    pub fn none() -> (r: NoteEvent)
        ensures
            r == NoteEvent::spec_none(),
    {
        NoteEvent { down: false, note: 0, velocity: 0, timestamp: 0 }
    }

    pub open spec fn spec_none() -> NoteEvent {
        NoteEvent { down: false, note: 0, velocity: 0, timestamp: 0 }
    }
}

/// One slot of a channel's voice pool.
#[derive(Clone, Copy, Debug, PartialEq, Eq, Structural)]
pub struct Voice {
    /// The note held, if any.
    pub note: Option<i32>,
    pub velocity: u8,
    /// When the voice last took a note.
    pub timestamp: u64,
}

impl Voice {
    pub open spec fn spec_free() -> Voice {
        Voice { note: None, velocity: 0, timestamp: 0 }
    }
}

/// Index of the first voice from `from` on whose held note is `note`, or -1.
pub open spec fn first_from(vs: Seq<Voice>, note: Option<i32>, from: int) -> int
    decreases vs.len() - from,
{
    if from < 0 || from >= vs.len() {
        -1
    } else if vs[from].note == note {
        from
    } else {
        first_from(vs, note, from + 1)
    }
}

/// Index of the first voice holding `note`, or -1.
pub open spec fn held_at(vs: Seq<Voice>, note: i32) -> int {
    first_from(vs, Some(note), 0)
}

/// Index of the first free voice, or -1.
pub open spec fn free_at(vs: Seq<Voice>) -> int {
    first_from(vs, None, 0)
}

/// Among the first `k` voices, the one with the smallest timestamp, lowest index first.
pub open spec fn oldest_in(vs: Seq<Voice>, k: int) -> int
    decreases k,
{
    if k <= 1 {
        0
    } else {
        let o = oldest_in(vs, k - 1);
        if vs[k - 1].timestamp < vs[o].timestamp {
            k - 1
        } else {
            o
        }
    }
}

/// The voice to steal: smallest timestamp, lowest index first.
pub open spec fn oldest(vs: Seq<Voice>) -> int {
    oldest_in(vs, vs.len() as int)
}

/// A voice sounding the event's note.
pub open spec fn occupied(ev: NoteEvent) -> Voice {
    Voice { note: Some(ev.note), velocity: ev.velocity, timestamp: ev.timestamp }
}

/// A `Note` message to `targets`.
pub open spec fn note_msg(targets: Seq<usize>, note: i32, velocity: u8, on: bool, ts: u64) -> MessageView {
    MessageView::Note { ixs: targets, midi_num: note, velocity, on, timestamp: ts }
}

/// What one event does to a pool `vs` whose voice slots send to `targets`:
/// the new pool and the messages, in order.
pub open spec fn alloc_step(vs: Seq<Voice>, targets: Seq<Seq<usize>>, ev: NoteEvent) -> (Seq<Voice>, Seq<MessageView>) {
    if !ev.down {
        let i = held_at(vs, ev.note);
        if i < 0 {
            (vs, Seq::empty())
        } else {
            (
                vs.update(i, Voice { note: None, velocity: 0, timestamp: vs[i].timestamp }),
                seq![note_msg(targets[i], ev.note, ev.velocity, false, ev.timestamp)],
            )
        }
    } else {
        let i = free_at(vs);
        if i >= 0 {
            (vs.update(i, occupied(ev)), seq![note_msg(targets[i], ev.note, ev.velocity, true, ev.timestamp)])
        } else {
            let o = oldest(vs);
            (
                vs.update(o, occupied(ev)),
                seq![
                    note_msg(targets[o], vs[o].note->0, ev.velocity, false, ev.timestamp),
                    note_msg(targets[o], ev.note, ev.velocity, true, ev.timestamp),
                ],
            )
        }
    }
}

/// Index of the first voice of `vs` holding `note`, if any.
fn find_voice(vs: &Vec<Voice>, note: Option<i32>) -> (r: Option<usize>)
    ensures
        match r {
            Some(i) => i == first_from(vs@, note, 0),
            None => first_from(vs@, note, 0) == -1,
        },
{
    let mut i: usize = 0;
    while i < vs.len()
        invariant
            i <= vs.len(),
            first_from(vs@, note, 0) == first_from(vs@, note, i as int),
        decreases vs.len() - i,
    {
        let same = match (vs[i].note, note) {
            (Some(a), Some(b)) => a == b,
            (None, None) => true,
            _ => false,
        };
        if same {
            return Some(i);
        }
        i += 1;
    }
    None
}

/// Index of the voice with the smallest timestamp, lowest index first.
fn oldest_voice(vs: &Vec<Voice>) -> (r: usize)
    requires
        vs.len() >= 1,
    ensures
        r == oldest(vs@),
{
    let mut o: usize = 0;
    let mut k: usize = 1;
    while k < vs.len()
        invariant
            1 <= k <= vs.len(),
            o < k,
            o == oldest_in(vs@, k as int),
        decreases vs.len() - k,
    {
        if vs[k].timestamp < vs[o].timestamp {
            o = k;
        }
        k += 1;
    }
    o
}

/// The voice pools of all channels.
pub struct NoteModule {
    voices: Vec<Vec<Voice>>,
}

impl View for NoteModule {
    type V = Seq<Seq<Voice>>;

    closed spec fn view(&self) -> Seq<Seq<Voice>> {
        self.voices@.map_values(|vs: Vec<Voice>| vs@)
    }
}

/// One pool of `VOICE_COUNT` voices per channel.
pub open spec fn pools_wf(pools: Seq<Seq<Voice>>) -> bool {
    &&& pools.len() == CHANNEL_COUNT
    &&& forall|c: int| 0 <= c < CHANNEL_COUNT ==> (#[trigger] pools[c]).len() == VOICE_COUNT
}

impl NoteModule {
    /// Every voice of every channel free.
    pub fn new() -> (r: NoteModule)
        ensures
            r@ == Seq::new(
                CHANNEL_COUNT as nat,
                |c: int| Seq::new(VOICE_COUNT as nat, |v: int| Voice::spec_free()),
            ),
            pools_wf(r@),
    {
        let mut voices: Vec<Vec<Voice>> = Vec::new();
        let mut c: usize = 0;
        while c < CHANNEL_COUNT
            invariant
                c <= CHANNEL_COUNT,
                voices.len() == c,
                forall|k: int| 0 <= k < c ==> (#[trigger] voices@[k])@ == Seq::new(VOICE_COUNT as nat, |v: int| Voice::spec_free()),
            decreases CHANNEL_COUNT - c,
        {
            let mut pool: Vec<Voice> = Vec::new();
            let mut v: usize = 0;
            while v < VOICE_COUNT
                invariant
                    v <= VOICE_COUNT,
                    pool@ =~= Seq::new(v as nat, |v: int| Voice::spec_free()),
                decreases VOICE_COUNT - v,
            {
                pool.push(Voice { note: None, velocity: 0, timestamp: 0 });
                v += 1;
            }
            voices.push(pool);
            c += 1;
        }
        let r = NoteModule { voices };
        assert(r@ =~= Seq::new(
            CHANNEL_COUNT as nat,
            |c: int| Seq::new(VOICE_COUNT as nat, |v: int| Voice::spec_free()),
        ));
        r
    }

    /// A copy of the voice pool of `channel`.
    pub fn get_voices(&self, channel: usize) -> (r: Vec<Voice>)
        requires
            channel < self@.len(),
        ensures
            r@ == self@[channel as int],
    {
        let src = &self.voices[channel];
        let mut r: Vec<Voice> = Vec::new();
        let mut i: usize = 0;
        while i < src.len()
            invariant
                i <= src.len(),
                r@ =~= src@.subrange(0, i as int),
            decreases src.len() - i,
        {
            r.push(src[i]);
            i += 1;
        }
        assert(src@.subrange(0, i as int) =~= src@);
        r
    }

    /// Applies one note event to the pool of `channel` and sends the
    /// resulting `Note` messages to the voices' receivers.
    pub fn note_event(&mut self, engine: &mut Engine, note_event: NoteEvent, channel: usize)
        requires
            pools_wf(old(self)@),
            old(engine)@.wf(),
            channel < CHANNEL_COUNT,
            old(engine)@.has_channel(channel as int),
        ensures
            pools_wf(final(self)@),
            ({
                let step = alloc_step(
                    old(self)@[channel as int],
                    old(engine)@.control_maps[channel as int]->0.note_receivers,
                    note_event,
                );
                &&& final(self)@ == old(self)@.update(channel as int, step.0)
                &&& final(engine)@ == old(engine)@.sent(step.1)
            }),
    {
        let ghost pools0 = self@;
        let ghost vs0 = self@[channel as int];
        let ghost eng0 = engine@;
        let targets = engine.get_control_map(channel).note_receivers;
        let ghost tg = targets@.map_values(|r: Vec<usize>| r@);
        assert(tg.len() == VOICE_COUNT);
        let mut vs: Vec<Voice> = Vec::new();
        std::mem::swap(&mut vs, &mut self.voices[channel]);
        assert(vs@ == vs0);
        let n = note_event.note;
        let ts = note_event.timestamp;
        let vel = note_event.velocity;
        if !note_event.down {
            match find_voice(&vs, Some(n)) {
                Some(i) => {
                    proof { lemma_first_from_found(vs@, Some(n), 0); }
                    let held = vs[i].timestamp;
                    vs.set(i, Voice { note: None, velocity: 0, timestamp: held });
                    engine.send(Message::Note {
                        ixs: copy_ids(&targets[i]),
                        midi_num: n,
                        velocity: vel,
                        on: false,
                        timestamp: ts,
                    });
                },
                None => {
                    assert(eng0.core.outbox + Seq::<MessageView>::empty() =~= eng0.core.outbox);
                },
            }
        } else {
            match find_voice(&vs, None) {
                Some(i) => {
                    proof { lemma_first_from_found(vs@, None, 0); }
                    vs.set(i, Voice { note: Some(n), velocity: vel, timestamp: ts });
                    engine.send(Message::Note {
                        ixs: copy_ids(&targets[i]),
                        midi_num: n,
                        velocity: vel,
                        on: true,
                        timestamp: ts,
                    });
                },
                None => {
                    proof { lemma_oldest_in_range(vs@, vs@.len() as int); }
                    proof { lemma_first_from_missing(vs@, None, 0); }
                    let o = oldest_voice(&vs);
                    let stolen = match vs[o].note {
                        Some(m) => m,
                        None => 0,
                    };
                    engine.send(Message::Note {
                        ixs: copy_ids(&targets[o]),
                        midi_num: stolen,
                        velocity: vel,
                        on: false,
                        timestamp: ts,
                    });
                    vs.set(o, Voice { note: Some(n), velocity: vel, timestamp: ts });
                    engine.send(Message::Note {
                        ixs: copy_ids(&targets[o]),
                        midi_num: n,
                        velocity: vel,
                        on: true,
                        timestamp: ts,
                    });
                    let ghost m1 = note_msg(tg[o as int], vs0[o as int].note->0, vel, false, ts);
                    let ghost m2 = note_msg(tg[o as int], n, vel, true, ts);
                    assert(eng0.core.outbox + seq![m1] + seq![m2] =~= eng0.core.outbox + seq![m1, m2]);
                },
            }
        }
        let ghost vs1 = vs@;
        assert(eng0.control_maps[channel as int]->0.note_receivers == tg);
        assert((vs1, engine@.core.outbox) == (
            alloc_step(vs0, tg, note_event).0,
            eng0.core.outbox + alloc_step(vs0, tg, note_event).1,
        ));
        std::mem::swap(&mut vs, &mut self.voices[channel]);
        assert(self@ =~= pools0.update(channel as int, vs1));
    }
}

/// The index that `first_from` returns holds the note and lies in range.
pub proof fn lemma_first_from_found(vs: Seq<Voice>, note: Option<i32>, from: int)
    requires
        0 <= from,
        first_from(vs, note, from) != -1,
    ensures
        from <= first_from(vs, note, from) < vs.len(),
        vs[first_from(vs, note, from)].note == note,
        forall|j: int| from <= j < first_from(vs, note, from) ==> vs[j].note != note,
    decreases vs.len() - from,
{
    if from < vs.len() && vs[from].note != note {
        lemma_first_from_found(vs, note, from + 1);
    }
}

/// When `first_from` finds nothing, no voice from `from` on holds the note.
pub proof fn lemma_first_from_missing(vs: Seq<Voice>, note: Option<i32>, from: int)
    requires
        0 <= from,
        first_from(vs, note, from) == -1,
    ensures
        forall|j: int| from <= j < vs.len() ==> vs[j].note != note,
    decreases vs.len() - from,
{
    if from < vs.len() {
        lemma_first_from_missing(vs, note, from + 1);
    }
}

/// The oldest of the first `k` voices is one of them.
pub proof fn lemma_oldest_in_range(vs: Seq<Voice>, k: int)
    requires
        1 <= k,
    ensures
        0 <= oldest_in(vs, k) < k,
    decreases k,
{
    if k > 1 {
        lemma_oldest_in_range(vs, k - 1);
    }
}

/// When no voice from `from` on holds the note, `first_from` finds nothing.
pub proof fn lemma_first_from_absent(vs: Seq<Voice>, note: Option<i32>, from: int)
    requires
        0 <= from,
        forall|j: int| from <= j < vs.len() ==> vs[j].note != note,
    ensures
        first_from(vs, note, from) == -1,
    decreases vs.len() - from,
{
    if from < vs.len() {
        lemma_first_from_absent(vs, note, from + 1);
    }
}

/// Voice `i` has the smallest timestamp of the pool, and no voice before it has the same.
pub open spec fn is_earliest(vs: Seq<Voice>, i: int) -> bool {
    &&& 0 <= i < vs.len()
    &&& forall|j: int| 0 <= j < vs.len() ==> vs[i].timestamp <= #[trigger] vs[j].timestamp
    &&& forall|j: int| 0 <= j < i ==> #[trigger] vs[j].timestamp > vs[i].timestamp
}

/// Among the first `k` voices, `oldest_in` has the smallest timestamp, lowest index first.
pub proof fn lemma_oldest_in_earliest(vs: Seq<Voice>, k: int)
    requires
        1 <= k <= vs.len(),
    ensures
        is_earliest(vs.subrange(0, k), oldest_in(vs, k)),
    decreases k,
{
    if k > 1 {
        lemma_oldest_in_earliest(vs, k - 1);
        lemma_oldest_in_range(vs, k - 1);
        let p = vs.subrange(0, k - 1);
        let q = vs.subrange(0, k);
        assert forall|j: int| 0 <= j < k - 1 implies #[trigger] q[j] == p[j] by {}
    }
}

/// Stealing is deterministic: with every voice busy, a note-on takes over
/// exactly the voice with the smallest timestamp, the lowest index among
/// equal ones, and that voice is the only one with this property.
pub proof fn lemma_steal_takes_earliest(vs: Seq<Voice>, targets: Seq<Seq<usize>>, ev: NoteEvent)
    requires
        vs.len() >= 1,
        ev.down,
        forall|i: int| 0 <= i < vs.len() ==> (#[trigger] vs[i]).note is Some,
    ensures
        is_earliest(vs, oldest(vs)),
        forall|i: int| is_earliest(vs, i) ==> i == oldest(vs),
        alloc_step(vs, targets, ev).0 == vs.update(oldest(vs), occupied(ev)),
{
    lemma_oldest_in_earliest(vs, vs.len() as int);
    assert(vs.subrange(0, vs.len() as int) =~= vs);
    lemma_first_from_absent(vs, None, 0);
    let o = oldest(vs);
    assert forall|i: int| is_earliest(vs, i) implies i == o by {
        if i < o {
            assert(vs[i].timestamp > vs[o].timestamp);
            assert(vs[o].timestamp <= vs[i].timestamp);
        } else if o < i {
            assert(vs[o].timestamp > vs[i].timestamp);
            assert(vs[i].timestamp <= vs[o].timestamp);
        }
    }
}

/// A note-off for a note that no voice holds changes nothing and sends nothing.
pub proof fn lemma_stray_note_off_is_silent(vs: Seq<Voice>, targets: Seq<Seq<usize>>, ev: NoteEvent)
    requires
        !ev.down,
        forall|i: int| 0 <= i < vs.len() ==> (#[trigger] vs[i]).note != Some(ev.note),
    ensures
        alloc_step(vs, targets, ev) == (vs, Seq::<MessageView>::empty()),
{
    lemma_first_from_absent(vs, Some(ev.note), 0);
}

/// The notes sounding in a pool, one for each voice that holds a note.
pub open spec fn sounding(vs: Seq<Voice>) -> Seq<Voice> {
    vs.filter(|v: Voice| v.note is Some)
}

/// No two voices hold the same note.
pub open spec fn distinct_notes(vs: Seq<Voice>) -> bool {
    forall|i: int, j: int|
        0 <= i < j < vs.len() && (#[trigger] vs[i]).note is Some ==> vs[i].note != (#[trigger] vs[j]).note
}

/// Each of `evs` in turn applied to the pool `vs`: the final pool and all
/// the messages, in order.
pub open spec fn play(vs: Seq<Voice>, targets: Seq<Seq<usize>>, evs: Seq<NoteEvent>) -> (Seq<Voice>, Seq<MessageView>)
    decreases evs.len(),
{
    if evs.len() == 0 {
        (vs, Seq::empty())
    } else {
        let before = play(vs, targets, evs.drop_last());
        let step = alloc_step(before.0, targets, evs.last());
        (step.0, before.1 + step.1)
    }
}

/// The pool after each of `evs` in turn.
pub open spec fn run_events(vs: Seq<Voice>, targets: Seq<Seq<usize>>, evs: Seq<NoteEvent>) -> Seq<Voice> {
    play(vs, targets, evs).0
}

/// No event of `evs` is a note-on for a note that is sounding when it comes.
pub open spec fn no_repeated_on(vs: Seq<Voice>, targets: Seq<Seq<usize>>, evs: Seq<NoteEvent>) -> bool {
    forall|k: int|
        0 <= k < evs.len() ==> !((#[trigger] evs[k]).down && held_at(
            run_events(vs, targets, evs.take(k)),
            evs[k].note,
        ) >= 0)
}

/// One event keeps the pool's size, and keeps its notes distinct unless
/// it is a note-on for a note already sounding.
pub proof fn lemma_step_keeps_pool(vs: Seq<Voice>, targets: Seq<Seq<usize>>, ev: NoteEvent)
    requires
        vs.len() == VOICE_COUNT,
    ensures
        alloc_step(vs, targets, ev).0.len() == VOICE_COUNT,
        distinct_notes(vs) && !(ev.down && held_at(vs, ev.note) >= 0) ==> distinct_notes(
            alloc_step(vs, targets, ev).0,
        ),
{
    let after = alloc_step(vs, targets, ev).0;
    if !ev.down {
        if held_at(vs, ev.note) >= 0 {
            lemma_first_from_found(vs, Some(ev.note), 0);
        }
    } else if free_at(vs) >= 0 {
        lemma_first_from_found(vs, None, 0);
    } else {
        lemma_oldest_in_range(vs, vs.len() as int);
    }
    if ev.down {
        if held_at(vs, ev.note) != -1 {
            lemma_first_from_found(vs, Some(ev.note), 0);
        } else {
            lemma_first_from_missing(vs, Some(ev.note), 0);
        }
    }
}

/// Over any run of events, a channel keeps `VOICE_COUNT` voices, so at most
/// `VOICE_COUNT` notes sound at once, each voice holding at most one; and
/// when no event is a note-on for a note already sounding, no two voices
/// ever hold the same note.
pub proof fn lemma_polyphony_bounded(vs: Seq<Voice>, targets: Seq<Seq<usize>>, evs: Seq<NoteEvent>)
    requires
        vs.len() == VOICE_COUNT,
    ensures
        run_events(vs, targets, evs).len() == VOICE_COUNT,
        sounding(run_events(vs, targets, evs)).len() <= VOICE_COUNT,
        distinct_notes(vs) && no_repeated_on(vs, targets, evs) ==> distinct_notes(
            run_events(vs, targets, evs),
        ),
    decreases evs.len(),
{
    if evs.len() > 0 {
        let init = evs.drop_last();
        lemma_polyphony_bounded(vs, targets, init);
        let before = run_events(vs, targets, init);
        lemma_step_keeps_pool(before, targets, evs.last());
        if no_repeated_on(vs, targets, evs) {
            assert forall|k: int| 0 <= k < init.len() implies !((#[trigger] init[k]).down && held_at(
                run_events(vs, targets, init.take(k)),
                init[k].note,
            ) >= 0) by {
                assert(init.take(k) =~= evs.take(k));
                assert(init[k] == evs[k]);
            }
            assert(evs.take(evs.len() - 1) =~= init);
            assert(evs[evs.len() - 1] == evs.last());
        }
    }
    run_events(vs, targets, evs).lemma_filter_len(|v: Voice| v.note is Some);
}

} // verus!
