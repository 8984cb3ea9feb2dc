//! Repeating countdown that gates periodic spawning.
use vstd::prelude::*;

verus! {

/// A repeating timer counted in nanoseconds. Each tick adds the frame time;
/// when the running total reaches `duration` the timer reports `finished`
/// for that tick and keeps only the remainder.
#[derive(Clone, Copy, Debug, PartialEq, Eq, Structural)]
pub struct SpawnTimer {
    pub duration: u64,
    pub elapsed: u64,
    pub finished: bool,
}

impl SpawnTimer {
    pub open spec fn wf(self) -> bool {
        0 < self.duration && self.elapsed < self.duration
    }

    /// The timer after one tick of `delta` nanoseconds.
    pub open spec fn tick_spec(self, delta: int) -> SpawnTimer {
        SpawnTimer {
            duration: self.duration,
            elapsed: ((self.elapsed + delta) % (self.duration as int)) as u64,
            finished: self.elapsed + delta >= self.duration,
        }
    }

    /// The timer after one tick per element of `deltas`, in order.
    pub open spec fn after_ticks(self, deltas: Seq<u64>) -> SpawnTimer
        decreases deltas.len(),
    {
        if deltas.len() == 0 {
            self
        } else {
            self.after_ticks(deltas.drop_last()).tick_spec(deltas.last() as int)
        }
    }

    /// A timer with nothing elapsed that fires every `duration` nanoseconds.
    pub fn new(duration: u64) -> (r: SpawnTimer)
        requires
            duration > 0,
        ensures
            r == (SpawnTimer { duration, elapsed: 0, finished: false }),
            r.wf(),
    {
        SpawnTimer { duration, elapsed: 0, finished: false }
    }

    /// Advances the timer by `delta` nanoseconds.
    pub fn tick(&mut self, delta: u64)
        requires
            old(self).wf(),
        ensures
            *final(self) == old(self).tick_spec(delta as int),
            final(self).wf(),
    {
        let total: u128 = self.elapsed as u128 + delta as u128;
        let d: u128 = self.duration as u128;
        self.finished = total >= d;
        self.elapsed = (total % d) as u64;
    }

    /// Whether the last tick reached the duration.
    pub fn finished(&self) -> (r: bool)
        ensures
            r == self.finished,
    {
        self.finished
    }
}

pub open spec fn sum(deltas: Seq<u64>) -> int
    decreases deltas.len(),
{
    if deltas.len() == 0 {
        0
    } else {
        sum(deltas.drop_last()) + deltas.last()
    }
}

/// A fresh timer ticked through `deltas` holds the accumulated time modulo
/// its duration, so the last tick fires (at most once, as `finished` is a
/// flag) exactly when the accumulated time crosses a multiple of the duration.
pub proof fn lemma_timer_fires_on_crossing(duration: u64, deltas: Seq<u64>)
    requires
        duration > 0,
    ensures
        ({
            let t = SpawnTimer { duration, elapsed: 0, finished: false }.after_ticks(deltas);
            &&& t.wf()
            &&& t.duration == duration
            &&& t.elapsed == sum(deltas) % (duration as int)
            &&& deltas.len() > 0 ==> (t.finished <==> sum(deltas) / (duration as int)
                > sum(deltas.drop_last()) / (duration as int))
        }),
    decreases deltas.len(),
{
    let d = duration as int;
    let t0 = SpawnTimer { duration, elapsed: 0, finished: false };
    if deltas.len() == 0 {
        assert(0int % d == 0) by (nonlinear_arith)
            requires
                d > 0,
        ;
    } else {
        let prev = deltas.drop_last();
        lemma_timer_fires_on_crossing(duration, prev);
        lemma_sum_nonneg(prev);
        let s = sum(prev);
        let x = deltas.last() as int;
        let e = s % d;
        vstd::arithmetic::div_mod::lemma_fundamental_div_mod(s, d);
        vstd::arithmetic::div_mod::lemma_fundamental_div_mod(s + x, d);
        vstd::arithmetic::div_mod::lemma_mod_bound(s + x, d);
        vstd::arithmetic::div_mod::lemma_mod_bound(s, d);
        assert((e + x) % d == (s + x) % d) by {
            vstd::arithmetic::div_mod::lemma_mod_add_multiples_vanish(e + x, d);
            vstd::arithmetic::div_mod::lemma_mod_multiples_vanish(s / d, e + x, d);
        }
        assert((e + x >= d) <==> (s + x) / d > s / d) by {
            vstd::arithmetic::div_mod::lemma_hoist_over_denominator(e + x, s / d, d as nat);
            assert((s / d) * d == d * (s / d)) by (nonlinear_arith);
            if e + x >= d {
                vstd::arithmetic::div_mod::lemma_div_is_ordered(d, e + x, d);
                vstd::arithmetic::div_mod::lemma_div_by_self(d);
            } else {
                vstd::arithmetic::div_mod::lemma_basic_div(e + x, d);
            }
        }
        assert(sum(deltas) == s + x);
        let tp = t0.after_ticks(prev);
        assert(t0.after_ticks(deltas) == tp.tick_spec(x));
        assert(tp.elapsed == e);
        assert(tp.tick_spec(x).elapsed == (e + x) % d);
        assert(tp.tick_spec(x).finished == (e + x >= d));
    }
}

proof fn lemma_sum_nonneg(deltas: Seq<u64>)
    ensures
        sum(deltas) >= 0,
    decreases deltas.len(),
{
    if deltas.len() > 0 {
        lemma_sum_nonneg(deltas.drop_last());
    }
}

} // verus!
