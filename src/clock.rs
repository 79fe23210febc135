//! The sequencer's free-running software clock.
//!
//! A driver polls the time elapsed since the last transition. A transition
//! fires once that time reaches the half-beat period less the residue, the
//! signed error carried from the previous transition; the residue then
//! becomes the new error. The long-run average period thus follows the
//! target however coarse the polling. Phases alternate tock, tick, tock, ...

use vstd::prelude::*;

verus! {

/// Microseconds in half a minute: a half-beat lasts this over the tempo.
pub const HALF_MINUTE_US: u32 = 30_000_000;

/// After a transition the driver rests for the period over this.
pub const REST_DIVISOR: u32 = 10;

/// The two alternating phases of a step.
#[derive(Clone, Copy, Debug, PartialEq, Eq, Structural)]
pub enum Phase {
    Tick,
    Tock,
}

/// The half-beat period at `bpm`, in whole microseconds.
pub open spec fn spec_period_us(bpm: u32) -> int {
    HALF_MINUTE_US as int / bpm as int
}

/// The half-beat period at `bpm` beats per minute, in whole microseconds.
pub fn period_us(bpm: u32) -> (r: u32)
    requires
        bpm >= 1,
    ensures
        r == spec_period_us(bpm),
        r <= HALF_MINUTE_US,
{
    HALF_MINUTE_US / bpm
}

/// How long the driver rests after a transition at `bpm`, in microseconds.
pub fn rest_us(bpm: u32) -> (r: u64)
    requires
        bpm >= 1,
    ensures
        r == spec_period_us(bpm) / REST_DIVISOR as int,
{
    (period_us(bpm) / REST_DIVISOR) as u64
}

/// The residue and the phase of the next transition.
pub struct Clock {
    residue: i128,
    tick: bool,
}

pub struct ClockView {
    /// The error of the last transition: elapsed time less the period,
    /// plus the residue before it.
    pub residue: int,
    /// Whether the next transition is a tick.
    pub tick: bool,
}

impl View for Clock {
    type V = ClockView;

    closed spec fn view(&self) -> ClockView {
        ClockView { residue: self.residue as int, tick: self.tick }
    }
}

impl ClockView {
    /// A transition fires once `elapsed` reaches the period less the residue.
    pub open spec fn fires(self, elapsed: int, period: int) -> bool {
        elapsed >= period - self.residue
    }

    /// The clock after a poll that observed `elapsed` at a period of `period`.
    pub open spec fn after(self, elapsed: int, period: int) -> ClockView {
        if self.fires(elapsed, period) {
            ClockView { residue: self.residue + elapsed - period, tick: !self.tick }
        } else {
            self
        }
    }

    /// The phase that a transition now would run.
    pub open spec fn phase(self) -> Phase {
        if self.tick {
            Phase::Tick
        } else {
            Phase::Tock
        }
    }
}

impl Clock {
    /// No residue, tock first.
    pub fn new() -> (r: Clock)
        ensures
            r@ == (ClockView { residue: 0, tick: false }),
    {
        Clock { residue: 0, tick: false }
    }

    /// The residue carried into the next transition.
    pub fn residue(&self) -> (r: i128)
        ensures
            r == self@.residue,
    {
        self.residue
    }

    /// Checks `elapsed_us`, the time since the last transition, against the
    /// period at `bpm`; when a transition fires returns its phase and carries
    /// the new residue.
    pub fn poll(&mut self, elapsed_us: i128, bpm: u32) -> (r: Option<Phase>)
        requires
            bpm >= 1,
            old(self)@.residue >= 0,
            elapsed_us >= 0,
            old(self)@.residue + elapsed_us <= i128::MAX,
        ensures
            final(self)@ == old(self)@.after(elapsed_us as int, spec_period_us(bpm)),
            final(self)@.residue >= 0,
            r == if old(self)@.fires(elapsed_us as int, spec_period_us(bpm)) {
                Some(old(self)@.phase())
            } else {
                None
            },
    {
        let period = period_us(bpm) as i128;
        if elapsed_us >= period - self.residue {
            self.residue = elapsed_us - period + self.residue;
            let phase = if self.tick {
                Phase::Tick
            } else {
                Phase::Tock
            };
            self.tick = !self.tick;
            Some(phase)
        } else {
            None
        }
    }
}

/// The sum of `xs`.
pub open spec fn total(xs: Seq<int>) -> int
    decreases xs.len(),
{
    if xs.len() == 0 {
        0
    } else {
        total(xs.drop_last()) + xs.last()
    }
}

/// The clock after transitions that each fired on the elapsed time of `es`.
pub open spec fn run_transitions(c: ClockView, period: int, es: Seq<int>) -> ClockView
    decreases es.len(),
{
    if es.len() == 0 {
        c
    } else {
        run_transitions(c, period, es.drop_last()).after(es.last(), period)
    }
}

/// Each transition of `es` fired, at most `bound` after the clock allowed it.
pub open spec fn overshoots_within(c: ClockView, period: int, es: Seq<int>, bound: int) -> bool {
    forall|i: int|
        0 <= i < es.len() ==> {
            let before = run_transitions(c, period, es.take(i));
            0 <= #[trigger] es[i] - (period - before.residue) <= bound
        }
}

/// When every transition fires at most `bound` late, the time of `n`
/// transitions from a fresh clock lies within `bound` of `n` periods: after
/// each one the residue is that transition's lateness, so the average
/// period stays within `bound` of the target.
pub proof fn lemma_clock_converges(period: int, es: Seq<int>, bound: int)
    requires
        overshoots_within(ClockView { residue: 0, tick: false }, period, es, bound),
    ensures
        total(es) == period * es.len() + run_transitions(
            ClockView { residue: 0, tick: false },
            period,
            es,
        ).residue,
        es.len() > 0 ==> 0 <= run_transitions(ClockView { residue: 0, tick: false }, period, es).residue
            <= bound,
        period * es.len() <= total(es),
        es.len() > 0 ==> total(es) <= period * es.len() + bound,
    decreases es.len(),
{
    let c = ClockView { residue: 0, tick: false };
    if es.len() > 0 {
        let init = es.drop_last();
        assert forall|i: int| 0 <= i < init.len() implies {
            let before = run_transitions(c, period, init.take(i));
            0 <= #[trigger] init[i] - (period - before.residue) <= bound
        } by {
            assert(init.take(i) =~= es.take(i));
            assert(init[i] == es[i]);
        }
        lemma_clock_converges(period, init, bound);
        let n = es.len() - 1;
        assert(es.take(n) =~= init);
        assert(es[n] == es.last());
        assert(period * es.len() == period * init.len() + period) by (nonlinear_arith)
            requires
                es.len() == init.len() + 1,
        ;
    }
}

} // verus!
