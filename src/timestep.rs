use vstd::arithmetic::div_mod::{lemma_fundamental_div_mod, lemma_fundamental_div_mod_converse};
use vstd::prelude::*;

verus! {

/// Largest tick duration: twice it still fits in a `u64`.
pub const MAX_TIME_STEP: u64 = 0x7fff_ffff_ffff_ffff;

/// A fixed-step accumulator: elapsed time comes in, whole ticks go out.
/// Times are in integer units (the game uses nanoseconds).
#[derive(Clone, Copy, Debug, PartialEq, Eq, Structural)]
pub struct FixedStep {
    pub accumulated_time: u64,
    pub fixed_time_step: u64,
}

/// Ticks owed, and time left over, after adding `delta` to `acc`.
pub open spec fn tick_once(acc: int, step: int, delta: int) -> (int, int) {
    ((acc + delta) / step, (acc + delta) % step)
}

/// The sum of `deltas`.
pub open spec fn total(deltas: Seq<int>) -> int
    decreases deltas.len(),
{
    if deltas.len() == 0 {
        0
    } else {
        total(deltas.drop_last()) + deltas.last()
    }
}

/// Ticks owed in all, and time left over, after feeding `deltas` one frame
/// at a time to an accumulator holding `acc`.
pub open spec fn tick_frames(acc: int, step: int, deltas: Seq<int>) -> (int, int)
    decreases deltas.len(),
{
    if deltas.len() == 0 {
        (0, acc)
    } else {
        let before = tick_frames(acc, step, deltas.drop_last());
        let once = tick_once(before.1, step, deltas.last());
        (before.0 + once.0, once.1)
    }
}

impl FixedStep {
    pub open spec fn wf(self) -> bool {
        0 < self.fixed_time_step <= MAX_TIME_STEP && self.accumulated_time < self.fixed_time_step
    }

    pub fn new(fixed_time_step: u64) -> (r: FixedStep)
        requires
            0 < fixed_time_step <= MAX_TIME_STEP,
        ensures
            r.wf(),
            r == (FixedStep { accumulated_time: 0, fixed_time_step }),
    {
        FixedStep { accumulated_time: 0, fixed_time_step }
    }

    /// Adds `delta` to the accumulated time and drains it in whole steps;
    /// returns how many steps were drained.
    pub fn advance(&mut self, delta: u64) -> (ticks: u64)
        requires
            old(self).wf(),
        ensures
            final(self).wf(),
            final(self).fixed_time_step == old(self).fixed_time_step,
            (ticks as int, final(self).accumulated_time as int) == tick_once(
                old(self).accumulated_time as int,
                old(self).fixed_time_step as int,
                delta as int,
            ),
    {
        let step = self.fixed_time_step;
        let acc = self.accumulated_time;
        let whole = delta / step;
        let rest = delta % step;
        let carried = rest + acc;
        proof {
            lemma_fundamental_div_mod(delta as int, step as int);
            assert(whole * step <= delta) by (nonlinear_arith)
                requires
                    delta == step * whole + rest,
                    0 <= rest,
            ;
        }
        if carried >= step {
            proof {
                assert(step >= 2);
                assert(whole <= delta / 2) by (nonlinear_arith)
                    requires
                        whole * step <= delta,
                        step >= 2,
                        whole >= 0,
                ;
                assert(acc + delta == (whole + 1) * step + (carried - step)) by (nonlinear_arith)
                    requires
                        delta == step * whole + rest,
                        carried == rest + acc,
                ;
                lemma_fundamental_div_mod_converse(
                    acc + delta,
                    step as int,
                    whole + 1,
                    carried - step,
                );
            }
            self.accumulated_time = carried - step;
            whole + 1
        } else {
            proof {
                lemma_fundamental_div_mod_converse(acc + delta, step as int, whole as int, carried as int);
            }
            self.accumulated_time = carried;
            whole
        }
    }
}

/// Feeding frames one at a time owes exactly as many ticks as feeding their
/// sum at once, and leaves the same time over.
pub proof fn lemma_tick_frames_total(acc: int, step: int, deltas: Seq<int>)
    requires
        0 < step,
        0 <= acc < step,
    ensures
        tick_frames(acc, step, deltas) == tick_once(acc, step, total(deltas)),
    decreases deltas.len(),
{
    if deltas.len() > 0 {
        let init = deltas.drop_last();
        let d = deltas.last();
        lemma_tick_frames_total(acc, step, init);
        assert(total(deltas) == total(init) + d);
        let x = acc + total(init);
        let q = x / step;
        let a = x % step;
        let q2 = (a + d) / step;
        let a2 = (a + d) % step;
        lemma_fundamental_div_mod(x, step);
        lemma_fundamental_div_mod(a + d, step);
        assert(x + d == (q + q2) * step + a2) by (nonlinear_arith)
            requires
                x == step * q + a,
                a + d == step * q2 + a2,
        ;
        lemma_fundamental_div_mod_converse(x + d, step, q + q2, a2);
    } else {
        lemma_fundamental_div_mod_converse(acc, step, 0, acc);
    }
}

/// However frames are chunked, deltas that sum to `n` steps owe exactly `n`
/// ticks to an empty accumulator and leave nothing over.
pub proof fn lemma_chunking_exact(step: int, deltas: Seq<int>, n: int)
    requires
        0 < step,
        total(deltas) == n * step,
    ensures
        tick_frames(0, step, deltas) == (n, 0int),
{
    lemma_tick_frames_total(0, step, deltas);
    lemma_fundamental_div_mod_converse(n * step, step, n, 0);
}

} // verus!
