use vstd::prelude::*;

verus! {

/// What one pass of the server loop must do after it has drained the
/// action queue.
#[derive(Debug, Clone, Copy, PartialEq, Eq, Structural)]
pub struct TickPlan {
    /// Physics steps of one fixed timestep each to run now.
    pub steps: u64,
    /// Whether to publish a snapshot after the steps.
    pub broadcast: bool,
}

/// Time keeping of the server loop, on a monotonic clock in nanoseconds.
///
/// Wall-clock time accumulates; physics consumes it one fixed timestep at a
/// time, at most `max_steps_per_tick` steps per pass (whole steps beyond that
/// are dropped, so a stall cannot snowball). Snapshots go out whenever at
/// least `broadcast_interval_ns` has passed since the last one, whatever the
/// physics rate.
#[derive(Debug, Clone, Copy, PartialEq, Eq, Structural)]
pub struct LoopClock {
    pub fixed_step_ns: u64,
    pub broadcast_interval_ns: u64,
    pub max_steps_per_tick: u64,
    pub accumulator_ns: u64,
    pub last_tick_ns: u64,
    pub last_broadcast_ns: u64,
}

/// Time from `from` to `now`; none when the clock reads earlier.
pub open spec fn elapsed(from: u64, now: u64) -> int {
    if now >= from {
        now - from
    } else {
        0
    }
}

impl LoopClock {
    pub open spec fn wf(self) -> bool {
        self.fixed_step_ns > 0 && self.max_steps_per_tick > 0
    }

    /// Accumulated time once the pass at `now` has added its share, held at
    /// the largest `u64`.
    pub open spec fn pending(self, now: u64) -> int {
        let t = self.accumulator_ns + elapsed(self.last_tick_ns, now);
        if t <= u64::MAX {
            t
        } else {
            u64::MAX as int
        }
    }

    /// Whole timesteps owed at `now`.
    pub open spec fn due(self, now: u64) -> int {
        self.pending(now) / (self.fixed_step_ns as int)
    }

    pub open spec fn plan_at(self, now: u64) -> TickPlan {
        TickPlan {
            steps: if self.due(now) <= self.max_steps_per_tick {
                self.due(now) as u64
            } else {
                self.max_steps_per_tick
            },
            broadcast: elapsed(self.last_broadcast_ns, now) >= self.broadcast_interval_ns,
        }
    }

    pub open spec fn after(self, now: u64) -> LoopClock {
        LoopClock {
            accumulator_ns: (self.pending(now) % (self.fixed_step_ns as int)) as u64,
            last_tick_ns: now,
            last_broadcast_ns: if self.plan_at(now).broadcast {
                now
            } else {
                self.last_broadcast_ns
            },
            ..self
        }
    }

    /// A clock started at `start_ns`, with nothing accumulated and the last
    /// snapshot counted as sent then.
    pub fn new(
        fixed_step_ns: u64,
        broadcast_interval_ns: u64,
        max_steps_per_tick: u64,
        start_ns: u64,
    ) -> (r: LoopClock)
        requires
            fixed_step_ns > 0,
            max_steps_per_tick > 0,
        ensures
            r.wf(),
            r == (LoopClock {
                fixed_step_ns,
                broadcast_interval_ns,
                max_steps_per_tick,
                accumulator_ns: 0,
                last_tick_ns: start_ns,
                last_broadcast_ns: start_ns,
            }),
    {
        LoopClock {
            fixed_step_ns,
            broadcast_interval_ns,
            max_steps_per_tick,
            accumulator_ns: 0,
            last_tick_ns: start_ns,
            last_broadcast_ns: start_ns,
        }
    }

    /// One pass of the loop at time `now_ns`: how many steps to run and
    /// whether to broadcast.
    pub fn tick(&mut self, now_ns: u64) -> (r: TickPlan)
        requires
            old(self).wf(),
        ensures
            r == old(self).plan_at(now_ns),
            *final(self) == old(self).after(now_ns),
            final(self).wf(),
            final(self).accumulator_ns < final(self).fixed_step_ns,
            r.steps <= old(self).max_steps_per_tick,
            old(self).due(now_ns) <= old(self).max_steps_per_tick ==> r.steps
                * old(self).fixed_step_ns + final(self).accumulator_ns == old(self).pending(now_ns),
    {
        let gap: u64 = if now_ns >= self.last_tick_ns {
            now_ns - self.last_tick_ns
        } else {
            0
        };
        let total: u64 = if self.accumulator_ns <= u64::MAX - gap {
            self.accumulator_ns + gap
        } else {
            u64::MAX
        };
        let due = total / self.fixed_step_ns;
        let steps = if due <= self.max_steps_per_tick {
            due
        } else {
            self.max_steps_per_tick
        };
        let since: u64 = if now_ns >= self.last_broadcast_ns {
            now_ns - self.last_broadcast_ns
        } else {
            0
        };
        let broadcast = since >= self.broadcast_interval_ns;
        proof {
            let s = self.fixed_step_ns as int;
            vstd::arithmetic::div_mod::lemma_fundamental_div_mod(total as int, s);
            vstd::arithmetic::div_mod::lemma_mod_bound(total as int, s);
            vstd::arithmetic::mul::lemma_mul_is_commutative(total as int / s, s);
            assert(total as int == self.pending(now_ns));
        }
        self.accumulator_ns = total % self.fixed_step_ns;
        self.last_tick_ns = now_ns;
        if broadcast {
            self.last_broadcast_ns = now_ns;
        }
        TickPlan { steps, broadcast }
    }
}

/// The clock after `n` passes `period` apart starting from `c`, and the
/// number of snapshots those passes sent.
pub open spec fn run_passes(c: LoopClock, period: u64, n: nat) -> (LoopClock, nat)
    decreases n,
{
    if n == 0 {
        (c, 0)
    } else {
        let (prev, sent) = run_passes(c, period, (n - 1) as nat);
        let now = (prev.last_tick_ns + period) as u64;
        (prev.after(now), sent + if prev.plan_at(now).broadcast {
            1nat
        } else {
            0nat
        })
    }
}

/// Snapshots go out once per broadcast interval. Driven by passes `period`
/// apart, with the interval a whole number `q` of periods, a clock that has
/// just sent a snapshot sends exactly `n / q` in the next `n` passes. The
/// count does not depend on the physics timestep.
pub proof fn lemma_broadcast_cadence(c: LoopClock, period: u64, q: nat, n: nat)
    requires
        period > 0,
        q > 0,
        c.broadcast_interval_ns == q * period,
        c.last_broadcast_ns == c.last_tick_ns,
        c.last_tick_ns + n * period <= u64::MAX,
    ensures
        run_passes(c, period, n).1 == n / q,
        run_passes(c, period, n).0.last_tick_ns == c.last_tick_ns + n * period,
        run_passes(c, period, n).0.last_broadcast_ns == c.last_tick_ns + (n / q) * q * period,
        run_passes(c, period, n).0.broadcast_interval_ns == c.broadcast_interval_ns,
    decreases n,
{
    let p = period as int;
    let t0 = c.last_tick_ns as int;
    let qi = q as int;
    if n == 0 {
        assert(0nat / q == 0) by (nonlinear_arith)
            requires
                q > 0,
        ;
        assert(n * period == 0) by (nonlinear_arith)
            requires
                n == 0,
        ;
    } else {
        let m = (n - 1) as nat;
        assert(m * p <= n * p) by (nonlinear_arith)
            requires
                m <= n,
                p > 0,
        ;
        lemma_broadcast_cadence(c, period, q, m);
        let (prev, sent) = run_passes(c, period, m);
        assert(prev.last_tick_ns + p == t0 + n * p) by (nonlinear_arith)
            requires
                prev.last_tick_ns == t0 + m * p,
                n == m + 1,
        ;
        let now = (prev.last_tick_ns + period) as u64;
        let k = m as int / qi;
        let r = m as int % qi;
        vstd::arithmetic::div_mod::lemma_fundamental_div_mod(m as int, qi);
        vstd::arithmetic::div_mod::lemma_mod_bound(m as int, qi);
        assert(now as int == t0 + n * p) by (nonlinear_arith)
            requires
                prev.last_tick_ns == t0 + m * p,
                now as int == prev.last_tick_ns + p,
                n == m + 1,
        ;
        assert(now as int - prev.last_broadcast_ns == (r + 1) * p) by (nonlinear_arith)
            requires
                prev.last_broadcast_ns == t0 + k * qi * p,
                now as int == t0 + n * p,
                n == m + 1,
                m == qi * k + r,
        ;
        assert((r + 1) * p >= qi * p <==> r + 1 >= qi) by (nonlinear_arith)
            requires
                p > 0,
        ;
        if r + 1 == qi {
            assert(n as int == (k + 1) * qi) by (nonlinear_arith)
                requires
                    n == m + 1,
                    m == qi * k + r,
                    r + 1 == qi,
            ;
            vstd::arithmetic::div_mod::lemma_fundamental_div_mod_converse(n as int, qi, k + 1, 0);
            assert(prev.plan_at(now).broadcast);
            assert(run_passes(c, period, n).1 == sent + 1);
            assert(now as int == t0 + (k + 1) * qi * p) by (nonlinear_arith)
                requires
                    now as int == t0 + n * p,
                    n == qi * (k + 1),
            ;
        } else {
            assert(n as int == k * qi + (r + 1)) by (nonlinear_arith)
                requires
                    n == m + 1,
                    m == qi * k + r,
            ;
            vstd::arithmetic::div_mod::lemma_fundamental_div_mod_converse(n as int, qi, k, r + 1);
            assert(!prev.plan_at(now).broadcast);
            assert(run_passes(c, period, n).1 == sent);
        }
    }
}

} // verus!
