use vstd::prelude::*;
use core::cmp::Ordering;
use vstd::multiset::Multiset;
use crate::priority::TaskPriority;
use crate::ready_task::{
    ReadyTask, AGING_PRIORITY_GAP, STARVATION_THRESHOLD_NANOS, rank_of, time_of, id_of,
    spec_priority_gap, spec_age_gap, spec_age_override,
};

verus! {

/// Three-way comparison of two integers.
pub open spec fn compare_int(x: int, y: int) -> Ordering {
    if x < y {
        Ordering::Less
    } else if x == y {
        Ordering::Equal
    } else {
        Ordering::Greater
    }
}

/// Lexicographic combination: the second comparison decides only on a tie.
pub open spec fn then_compare(first: Ordering, second: Ordering) -> Ordering {
    match first {
        Ordering::Equal => second,
        _ => first,
    }
}

/// The opposite verdict.
pub open spec fn reversed(o: Ordering) -> Ordering {
    match o {
        Ordering::Less => Ordering::Greater,
        Ordering::Equal => Ordering::Equal,
        Ordering::Greater => Ordering::Less,
    }
}

/// Scheduling order: `Greater` means `a` is served before `b`.
///
/// Under the anti-starvation rule the older task comes first, then the higher
/// class, then the smaller id; otherwise the higher class comes first, then the
/// older task, then the smaller id.
pub open spec fn schedule_order(a: ReadyTask, b: ReadyTask) -> Ordering {
    let by_class = compare_int(rank_of(a), rank_of(b));
    let by_age = compare_int(time_of(b), time_of(a));
    let by_id = compare_int(id_of(b), id_of(a));
    if spec_age_override(a, b) {
        then_compare(by_age, then_compare(by_class, by_id))
    } else {
        then_compare(by_class, then_compare(by_age, by_id))
    }
}

/// `a` is served strictly before `b`.
pub open spec fn precedes(a: ReadyTask, b: ReadyTask) -> bool {
    schedule_order(a, b) == Ordering::Greater
}

/// No task of `s` is served strictly before `a`.
pub open spec fn dominates(a: ReadyTask, s: Multiset<ReadyTask>) -> bool {
    forall|x: ReadyTask| #[trigger] s.count(x) > 0 ==> !precedes(x, a)
}

fn compare_classes(a: &ReadyTask, b: &ReadyTask) -> (o: Ordering)
    ensures
        o == compare_int(rank_of(*a), rank_of(*b)),
{
    let x = a.priority.score();
    let y = b.priority.score();
    if x < y {
        Ordering::Less
    } else if x == y {
        Ordering::Equal
    } else {
        Ordering::Greater
    }
}

fn compare_ages(a: &ReadyTask, b: &ReadyTask) -> (o: Ordering)
    ensures
        o == compare_int(time_of(*b), time_of(*a)),
{
    if b.enqueued_at < a.enqueued_at {
        Ordering::Less
    } else if b.enqueued_at == a.enqueued_at {
        Ordering::Equal
    } else {
        Ordering::Greater
    }
}

fn compare_ids(a: &ReadyTask, b: &ReadyTask) -> (o: Ordering)
    ensures
        o == compare_int(id_of(*b), id_of(*a)),
{
    if b.task_id < a.task_id {
        Ordering::Less
    } else if b.task_id == a.task_id {
        Ordering::Equal
    } else {
        Ordering::Greater
    }
}

fn then_with(first: Ordering, second: Ordering) -> (o: Ordering)
    ensures
        o == then_compare(first, second),
{
    match first {
        Ordering::Equal => second,
        _ => first,
    }
}

impl ReadyTask {
    /// Whether `self` is served strictly before `other`.
    pub fn serves_before(&self, other: &Self) -> (b: bool)
        ensures
            b == precedes(*self, *other),
    {
        match self.cmp(other) {
            Ordering::Greater => true,
            _ => false,
        }
    }

    /// Compares two ready tasks; `Greater` means `self` is served first.
    pub fn cmp(&self, other: &Self) -> (o: Ordering)
        ensures
            o == schedule_order(*self, *other),
    {
        let by_class = compare_classes(self, other);
        let by_age = compare_ages(self, other);
        let by_id = compare_ids(self, other);
        if self.age_override_applies(other) {
            then_with(by_age, then_with(by_class, by_id))
        } else {
            then_with(by_class, then_with(by_age, by_id))
        }
    }

    /// `Some` of the comparison above: the order is defined on every pair.
    pub fn partial_cmp(&self, other: &Self) -> (o: Option<Ordering>)
        ensures
            o == Some(schedule_order(*self, *other)),
    {
        Some(self.cmp(other))
    }
}

/// No two entries of `m` are far enough apart in time, with classes close
/// enough, for the anti-starvation rule to apply.
pub open spec fn no_aging_pairs(m: Multiset<ReadyTask>) -> bool {
    forall|x: ReadyTask, y: ReadyTask|
        #![trigger m.count(x), m.count(y)]
        m.count(x) > 0 && m.count(y) > 0 ==> !spec_age_override(x, y)
}

/// When the anti-starvation rule applies to no pair of queued entries, the
/// queue holds an entry that is served no later than all others.
pub proof fn lemma_dominant_exists(m: Multiset<ReadyTask>)
    requires
        m.len() > 0,
        no_aging_pairs(m),
    ensures
        exists|d: ReadyTask| m.count(d) > 0 && #[trigger] dominates(d, m),
    decreases m.len(),
{
    broadcast use vstd::multiset::group_multiset_axioms;
    if forall|v: ReadyTask| m.count(v) == 0 {
        assert(m =~= Multiset::<ReadyTask>::empty());
    }
    let x = m.choose();
    assert(m.count(x) > 0);
    let rest = m.remove(x);
    if rest.len() == 0 {
        assert forall|y: ReadyTask| #[trigger] m.count(y) > 0 implies !precedes(y, x) by {
            if y != x {
                assert(rest.count(y) > 0);
            }
        }
        assert(dominates(x, m));
    } else {
        assert forall|a: ReadyTask, b: ReadyTask|
            #![trigger rest.count(a), rest.count(b)]
            rest.count(a) > 0 && rest.count(b) > 0 implies !spec_age_override(a, b) by {
            assert(m.count(a) > 0 && m.count(b) > 0);
        }
        lemma_dominant_exists(rest);
        let e = choose|d: ReadyTask| rest.count(d) > 0 && #[trigger] dominates(d, rest);
        assert(m.count(e) > 0);
        if precedes(x, e) {
            assert forall|y: ReadyTask| #[trigger] m.count(y) > 0 implies !precedes(y, x) by {
                if y != x {
                    assert(rest.count(y) > 0);
                    assert(!precedes(y, e));
                    assert(!spec_age_override(y, e));
                    assert(!spec_age_override(x, e));
                    assert(!spec_age_override(y, x));
                }
            }
            assert(dominates(x, m));
        } else {
            assert forall|y: ReadyTask| #[trigger] m.count(y) > 0 implies !precedes(y, e) by {
                if y != x {
                    assert(rest.count(y) > 0);
                }
            }
            assert(dominates(e, m));
        }
    }
}

/// When the anti-starvation rule applies to no pair of queued entries, an
/// entry served no later than all others belongs to the highest queued class.
pub proof fn lemma_dominant_has_highest_class(m: Multiset<ReadyTask>, d: ReadyTask)
    requires
        no_aging_pairs(m),
        m.count(d) > 0,
        dominates(d, m),
    ensures
        forall|x: ReadyTask| #[trigger] m.count(x) > 0 ==> rank_of(x) <= rank_of(d),
{
    assert forall|x: ReadyTask| #[trigger] m.count(x) > 0 implies rank_of(x) <= rank_of(d) by {
        assert(!precedes(x, d));
        assert(!spec_age_override(x, d));
    }
}

/// The scheduling order is not transitive: the anti-starvation rule can
/// close a cycle across three classes, so a queue need not hold an entry
/// that is served no later than all others.
pub proof fn lemma_schedule_order_cycle()
    ensures
        ({
            let a = ReadyTask::spec_at(1, TaskPriority::Low, 0);
            let b = ReadyTask::spec_at(2, TaskPriority::Normal, 2_000_000_000);
            let c = ReadyTask::spec_at(3, TaskPriority::High, 4_000_000_000);
            precedes(a, b) && precedes(b, c) && precedes(c, a)
        }),
{
}

/// Swapping the two tasks reverses the verdict.
pub proof fn lemma_schedule_order_antisymmetric(a: ReadyTask, b: ReadyTask)
    ensures
        schedule_order(a, b) == reversed(schedule_order(b, a)),
{
}

/// Two tasks tie only when they are the same entry.
pub proof fn lemma_schedule_order_equal_iff_same(a: ReadyTask, b: ReadyTask)
    ensures
        schedule_order(a, b) == Ordering::Equal <==> a == b,
{
    crate::priority::lemma_rank_injective(a.priority, b.priority);
}

/// Of two distinct entries exactly one is served before the other.
pub proof fn lemma_precedes_total(a: ReadyTask, b: ReadyTask)
    ensures
        a != b ==> (precedes(a, b) || precedes(b, a)),
        !(precedes(a, b) && precedes(b, a)),
{
    lemma_schedule_order_equal_iff_same(a, b);
}

/// Within one priority class tasks are served first in, first out.
pub proof fn lemma_same_class_fifo(a: ReadyTask, b: ReadyTask)
    requires
        a.priority == b.priority,
        a.enqueued_at < b.enqueued_at,
    ensures
        schedule_order(a, b) == Ordering::Greater,
{
}

/// A task that has waited at least the threshold longer than a task of a
/// neighbouring class (one step above or below, or the same) is served first.
pub proof fn lemma_starvation_override(a: ReadyTask, b: ReadyTask)
    requires
        spec_priority_gap(a, b) <= AGING_PRIORITY_GAP,
        a.enqueued_at + STARVATION_THRESHOLD_NANOS <= b.enqueued_at,
    ensures
        schedule_order(a, b) == Ordering::Greater,
{
}

/// A higher class is served first when the classes are two or more steps
/// apart, or when the two tasks were enqueued less than the threshold apart.
pub proof fn lemma_higher_class_first(a: ReadyTask, b: ReadyTask)
    requires
        rank_of(a) > rank_of(b),
        spec_priority_gap(a, b) > AGING_PRIORITY_GAP
            || spec_age_gap(a, b) < STARVATION_THRESHOLD_NANOS,
    ensures
        schedule_order(a, b) == Ordering::Greater,
{
}

} // verus!
