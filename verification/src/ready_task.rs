use vstd::prelude::*;
use crate::priority::{TaskPriority, priority_rank};

verus! {

/// Largest difference in priority rank for which the anti-starvation rule applies.
pub const AGING_PRIORITY_GAP: u8 = 1;

/// Waiting time, in seconds, after which an older task may overtake a
/// neighbouring priority class.
pub const STARVATION_THRESHOLD_SECONDS: u64 = 2;

/// The same threshold in nanoseconds, the unit of `ReadyTask::enqueued_at`.
pub const STARVATION_THRESHOLD_NANOS: u128 = 2_000_000_000;

/// The two threshold constants agree.
pub proof fn lemma_threshold_units()
    ensures
        STARVATION_THRESHOLD_NANOS == STARVATION_THRESHOLD_SECONDS * 1_000_000_000,
{
}

/// A task that has been woken and waits in the ready queue.
///
/// `enqueued_at` is the instant the task entered the queue, in nanoseconds of
/// a monotonic clock.
#[derive(Clone, Copy, Debug, PartialEq, Eq, Structural)]
pub struct ReadyTask {
    pub task_id: usize,
    pub priority: TaskPriority,
    pub enqueued_at: u128,
}

pub open spec fn abs_diff(x: int, y: int) -> nat {
    if x >= y { (x - y) as nat } else { (y - x) as nat }
}

/// Priority rank of a queued task as an integer.
pub open spec fn rank_of(t: ReadyTask) -> int {
    priority_rank(t.priority) as int
}

/// Enqueue instant of a queued task as an integer.
pub open spec fn time_of(t: ReadyTask) -> int {
    t.enqueued_at as int
}

/// Task id of a queued task as an integer.
pub open spec fn id_of(t: ReadyTask) -> int {
    t.task_id as int
}

pub open spec fn spec_priority_gap(a: ReadyTask, b: ReadyTask) -> nat {
    abs_diff(rank_of(a), rank_of(b))
}

pub open spec fn spec_age_gap(a: ReadyTask, b: ReadyTask) -> nat {
    abs_diff(time_of(a), time_of(b))
}

/// The anti-starvation rule applies to two tasks whose classes are at most
/// one step apart and whose enqueue times are at least the threshold apart.
pub open spec fn spec_age_override(a: ReadyTask, b: ReadyTask) -> bool {
    spec_priority_gap(a, b) <= AGING_PRIORITY_GAP
        && spec_age_gap(a, b) >= STARVATION_THRESHOLD_NANOS
}

impl ReadyTask {
    /// The entry for `task_id` of class `priority` enqueued at `at`.
    pub open spec fn spec_at(task_id: usize, priority: TaskPriority, at: u128) -> ReadyTask {
        ReadyTask { task_id, priority, enqueued_at: at }
    }

    /// A ready-queue entry for `task_id` enqueued at `enqueued_at` nanoseconds.
    pub fn new(task_id: usize, priority: TaskPriority, enqueued_at: u128) -> (r: Self)
        ensures
            r.task_id == task_id,
            r.priority == priority,
            r.enqueued_at == enqueued_at,
    {
        ReadyTask { task_id, priority, enqueued_at }
    }

    /// Distance between the two priority classes.
    pub fn priority_gap(&self, other: &Self) -> (g: u8)
        ensures
            g == spec_priority_gap(*self, *other),
    {
        let a = self.priority.score();
        let b = other.priority.score();
        if a >= b { a - b } else { b - a }
    }

    /// Time between the two enqueue instants, in nanoseconds.
    pub fn age_gap(&self, other: &Self) -> (g: u128)
        ensures
            g == spec_age_gap(*self, *other),
    {
        if self.enqueued_at >= other.enqueued_at {
            self.enqueued_at - other.enqueued_at
        } else {
            other.enqueued_at - self.enqueued_at
        }
    }

    /// Whether the anti-starvation rule decides between the two tasks.
    pub fn age_override_applies(&self, other: &Self) -> (b: bool)
        ensures
            b == spec_age_override(*self, *other),
    {
        self.priority_gap(other) <= AGING_PRIORITY_GAP
            && self.age_gap(other) >= STARVATION_THRESHOLD_NANOS
    }
}

} // verus!
