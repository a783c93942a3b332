use pong_sim::clock::{LoopClock, TickPlan};

const MS: u64 = 1_000_000;

fn broadcasts_over(step_ns: u64, ticks: u64) -> Vec<u64> {
    let mut clock = LoopClock::new(step_ns, 16 * MS, 8, 0);
    let mut sent = Vec::new();
    for t in 1..=ticks {
        if clock.tick(t * MS).broadcast {
            sent.push(t);
        }
    }
    sent
}

#[test]
fn snapshot_goes_out_once_every_sixteen_milliseconds() {
    let sent = broadcasts_over(1_000_000_000 / 120, 160);
    assert_eq!(sent, vec![16, 32, 48, 64, 80, 96, 112, 128, 144, 160]);
}

#[test]
fn broadcast_cadence_does_not_depend_on_physics_rate() {
    assert_eq!(broadcasts_over(1_000_000_000 / 120, 500), broadcasts_over(1_000_000_000 / 60, 500));
    assert_eq!(broadcasts_over(1_000_000_000 / 120, 500).len(), 31);
}

#[test]
fn accumulator_turns_time_into_whole_steps() {
    let step = 1_000_000_000 / 120;
    let mut clock = LoopClock::new(step, 16 * MS, 8, 0);
    let mut steps = 0;
    for t in 1..=1000u64 {
        steps += clock.tick(t * MS).steps;
    }
    // one second of one-millisecond passes runs 120 steps of 1/120 s
    assert_eq!(steps, 1000 * MS / step);
    assert_eq!(clock.accumulator_ns, 1000 * MS - steps * step);
}

#[test]
fn a_stall_runs_at_most_the_step_cap() {
    let step = 10 * MS;
    let mut clock = LoopClock::new(step, 16 * MS, 5, 0);
    let plan = clock.tick(1000 * MS + 3 * MS);
    assert_eq!(plan, TickPlan { steps: 5, broadcast: true });
    assert_eq!(clock.accumulator_ns, 3 * MS);
    assert_eq!(clock.last_tick_ns, 1003 * MS);
    assert_eq!(clock.last_broadcast_ns, 1003 * MS);
}

#[test]
fn no_time_no_steps() {
    let mut clock = LoopClock::new(10 * MS, 16 * MS, 5, 7 * MS);
    assert_eq!(clock.tick(7 * MS), TickPlan { steps: 0, broadcast: false });
    assert_eq!(clock.tick(5 * MS), TickPlan { steps: 0, broadcast: false });
    assert_eq!(clock.last_tick_ns, 5 * MS);
}

#[test]
fn a_huge_gap_saturates_the_accumulator() {
    let mut clock = LoopClock::new(1, 0, 3, 0);
    clock.accumulator_ns = u64::MAX - 1;
    let plan = clock.tick(u64::MAX);
    assert_eq!(plan.steps, 3);
    assert_eq!(clock.accumulator_ns, 0);
}
