use vstd::prelude::*;
use std::collections::HashMap;
use std::time::Instant;
use vstd::multiset::Multiset;
use crate::priority::TaskPriority;
use crate::ready_task::{ReadyTask, rank_of};
use crate::ready_queue::ReadyQueue;
use crate::order::{dominates, no_aging_pairs};
use crate::task::Task;
use crate::clock::{instant_now, nanos_since};

verus! {

broadcast use vstd::std_specs::hash::group_hash_axioms;

/// The scheduling state of an executor: the tasks it owns, by id, the
/// queue of woken tasks, and the wake-up flag of its sleeping run loop.
/// Enqueue times are read from a monotonic clock that starts when the
/// executor is created.
pub struct ExecutorCore<R> {
    tasks: HashMap<usize, Task<R>>,
    ready: ReadyQueue,
    wake: WakeSignal,
    origin: Instant,
    latest: u128,
}

impl<R> ExecutorCore<R> {
    /// Every owned task sits under its own id.
    #[verifier::type_invariant]
    closed spec fn tasks_keyed_by_id(&self) -> bool {
        &&& forall|k: usize| #[trigger] self.tasks@.contains_key(k) ==> self.tasks@[k].spec_id() == k
        &&& forall|e: ReadyTask| #[trigger] self.ready@.count(e) > 0 ==> e.enqueued_at <= self.latest
    }
}

/// What the run loop does next.
pub enum RunStep<R> {
    /// The entry and its task, to be polled; the executor holds the task back meanwhile.
    Poll(ReadyTask, Task<R>),
    /// The queue entry names a task the executor no longer owns; drop it.
    Skip(ReadyTask),
    /// No task and no queue entry is left: the run is over.
    Idle,
    /// Tasks are owned but none is woken: sleep until a wake-up.
    Park,
}

impl<R> ExecutorCore<R> {
    pub closed spec fn tasks_view(&self) -> Map<usize, Task<R>> {
        self.tasks@
    }

    pub closed spec fn ready_view(&self) -> Multiset<ReadyTask> {
        self.ready@
    }

    /// The latest enqueue stamp handed out so far (0 before any).
    pub closed spec fn stamp_floor(&self) -> u128 {
        self.latest
    }

    /// Whether a wake-up for the run loop is pending.
    pub closed spec fn wake_pending(&self) -> bool {
        self.wake@
    }

    /// An executor with no task.
    pub fn new() -> (e: Self)
        ensures
            e.tasks_view() == Map::<usize, Task<R>>::empty(),
            e.ready_view() == Multiset::<ReadyTask>::empty(),
            !e.wake_pending(),
            e.stamp_floor() == 0,
    {
        ExecutorCore {
            tasks: HashMap::new(),
            ready: ReadyQueue::new(),
            wake: WakeSignal::new(),
            origin: instant_now(),
            latest: 0,
        }
    }

    /// Whether a task with this id is owned.
    pub fn contains_task(&self, id: usize) -> (b: bool)
        ensures
            b == self.tasks_view().contains_key(id),
    {
        self.tasks.contains_key(&id)
    }

    /// Puts a woken task in the ready queue, stamped with the current time,
    /// and raises the run loop's wake-up flag. Stamps never go back: an
    /// entry is stamped no earlier than any entry enqueued before it.
    pub fn enqueue(&mut self, task_id: usize, priority: TaskPriority)
        ensures
            final(self).tasks_view() == old(self).tasks_view(),
            final(self).wake_pending(),
            exists|at: u128|
                {
                    &&& final(self).ready_view() == old(self).ready_view().insert(
                        #[trigger] ReadyTask::spec_at(task_id, priority, at),
                    )
                    &&& old(self).stamp_floor() <= at
                    &&& final(self).stamp_floor() == at
                    &&& forall|e: ReadyTask|
                        #[trigger] old(self).ready_view().count(e) > 0 ==> e.enqueued_at <= at
                },
    {
        proof {
            use_type_invariant(&*self);
        }
        let reading = nanos_since(&self.origin);
        // the clock is monotonic, so this keeps the reading
        let now = if reading < self.latest {
            self.latest
        } else {
            reading
        };
        let entry = ReadyTask::new(task_id, priority, now);
        self.latest = now;
        let mut ready = ReadyQueue::new();
        std::mem::swap(&mut ready, &mut self.ready);
        ready.push(entry);
        self.ready = ready;
        self.wake.resumable = true;
        assert(entry == ReadyTask::spec_at(task_id, priority, now));
    }

    /// Takes ownership of a new task, queues it for its first poll and
    /// raises the run loop's wake-up flag.
    pub fn spawn(&mut self, task: Task<R>)
        requires
            !old(self).tasks_view().contains_key(task.spec_id()),
        ensures
            final(self).tasks_view() == old(self).tasks_view().insert(task.spec_id(), task),
            final(self).wake_pending(),
            exists|at: u128|
                {
                    &&& final(self).ready_view() == old(self).ready_view().insert(
                        #[trigger] ReadyTask::spec_at(task.spec_id(), task.spec_priority(), at),
                    )
                    &&& old(self).stamp_floor() <= at
                    &&& final(self).stamp_floor() == at
                    &&& forall|e: ReadyTask|
                        #[trigger] old(self).ready_view().count(e) > 0 ==> e.enqueued_at <= at
                },
    {
        proof {
            use_type_invariant(&*self);
        }
        let id = task.id();
        let priority = task.priority();
        let mut tasks = HashMap::new();
        std::mem::swap(&mut tasks, &mut self.tasks);
        tasks.insert(id, task);
        self.tasks = tasks;
        self.enqueue(id, priority);
    }

    /// Hands a task that is still pending back to the executor, replacing
    /// any task with the same id.
    pub fn return_task(&mut self, task: Task<R>)
        ensures
            final(self).tasks_view() == old(self).tasks_view().insert(task.spec_id(), task),
            final(self).ready_view() == old(self).ready_view(),
            final(self).wake_pending() == old(self).wake_pending(),
            final(self).stamp_floor() == old(self).stamp_floor(),
    {
        proof {
            use_type_invariant(&*self);
        }
        let id = task.id();
        let mut tasks = HashMap::new();
        std::mem::swap(&mut tasks, &mut self.tasks);
        tasks.insert(id, task);
        self.tasks = tasks;
    }

    /// Consumes a pending wake-up: `true` when there was one, after which
    /// none is pending; `false` means the run loop must keep sleeping.
    pub fn take_wake(&mut self) -> (woken: bool)
        ensures
            woken == old(self).wake_pending(),
            !final(self).wake_pending(),
            final(self).stamp_floor() == old(self).stamp_floor(),
            final(self).tasks_view() == old(self).tasks_view(),
            final(self).ready_view() == old(self).ready_view(),
    {
        proof {
            use_type_invariant(&*self);
        }
        let woken = self.wake.resumable;
        self.wake.resumable = false;
        woken
    }

    /// Whether the executor owns no task and has no queued entry.
    pub fn is_idle(&self) -> (b: bool)
        ensures
            b == (self.tasks_view().len() == 0 && self.ready_view().len() == 0),
    {
        self.tasks.len() == 0 && self.ready.is_empty()
    }

    /// Decides the next step of the run loop.
    ///
    /// With queued entries, the entry to serve next is removed from the
    /// queue (an entry served no later than all others, whenever the queue
    /// holds one, and one of the highest queued class when the
    /// anti-starvation rule applies to no pair of entries); its task is taken out of the table for polling, or the
    /// entry is skipped when the task is gone. With an empty queue the run is
    /// over when no task is owned, and the loop sleeps otherwise.
    pub fn next_step(&mut self) -> (step: RunStep<R>)
        ensures
            final(self).wake_pending() == old(self).wake_pending(),
            final(self).stamp_floor() == old(self).stamp_floor(),
            old(self).ready_view().len() == 0 ==> {
                &&& final(self).tasks_view() == old(self).tasks_view()
                &&& final(self).ready_view() == old(self).ready_view()
                &&& (step is Idle) == (old(self).tasks_view().len() == 0)
                &&& (step is Park) == (old(self).tasks_view().len() > 0)
            },
            old(self).ready_view().len() > 0 ==> {
                let r = match step {
                    RunStep::Poll(r, _) => r,
                    RunStep::Skip(r) => r,
                    _ => arbitrary(),
                };
                &&& (step is Poll || step is Skip)
                &&& old(self).ready_view().count(r) > 0
                &&& final(self).ready_view() == old(self).ready_view().remove(r)
                &&& (exists|d: ReadyTask| old(self).ready_view().count(d) > 0
                    && #[trigger] dominates(d, old(self).ready_view())) ==> dominates(r, old(self).ready_view())
                &&& no_aging_pairs(old(self).ready_view()) ==> forall|x: ReadyTask|
                    #[trigger] old(self).ready_view().count(x) > 0 ==> rank_of(x) <= rank_of(r)
                &&& (step is Poll) == old(self).tasks_view().contains_key(r.task_id)
                &&& step matches RunStep::Poll(_, t) ==> {
                    &&& t == old(self).tasks_view()[r.task_id]
                    &&& t.spec_id() == r.task_id
                    &&& final(self).tasks_view() == old(self).tasks_view().remove(r.task_id)
                }
                &&& step is Skip ==> final(self).tasks_view() == old(self).tasks_view()
            },
    {
        proof {
            use_type_invariant(&*self);
        }
        let mut ready = ReadyQueue::new();
        std::mem::swap(&mut ready, &mut self.ready);
        let popped = ready.pop();
        self.ready = ready;
        match popped {
            Some(r) => {
                let mut tasks = HashMap::new();
                std::mem::swap(&mut tasks, &mut self.tasks);
                let taken = tasks.remove(&r.task_id);
                self.tasks = tasks;
                match taken {
                    Some(t) => RunStep::Poll(r, t),
                    None => RunStep::Skip(r),
                }
            },
            None => {
                if self.tasks.len() == 0 {
                    RunStep::Idle
                } else {
                    RunStep::Park
                }
            },
        }
    }
}

/// The wake-up flag of a sleeping run loop. A wake-up that arrives before
/// the loop goes to sleep is kept, so it is never lost.
pub struct WakeSignal {
    resumable: bool,
}

impl View for WakeSignal {
    type V = bool;

    closed spec fn view(&self) -> bool {
        self.resumable
    }
}

impl WakeSignal {
    /// A flag with no pending wake-up.
    pub fn new() -> (s: Self)
        ensures
            !s@,
    {
        WakeSignal { resumable: false }
    }

    /// Records a wake-up.
    pub fn signal(&mut self)
        ensures
            final(self)@,
    {
        self.resumable = true;
    }

    /// Consumes a pending wake-up: `true` when there was one, after which
    /// none is pending; `false` means the loop must keep sleeping.
    pub fn try_consume(&mut self) -> (woken: bool)
        ensures
            woken == old(self)@,
            !final(self)@,
    {
        let woken = self.resumable;
        self.resumable = false;
        woken
    }
}

/// What happens to a wake-up flag: a wake-up arrives (`signal`, or an
/// executor's `enqueue` and `spawn`), or the sleeping loop tries to consume
/// one (`try_consume`, or an executor's `take_wake`).
#[derive(Clone, Copy, Debug, PartialEq, Eq, Structural)]
pub enum WakeEvent {
    Signal,
    Consume,
}

/// The flag after one event, as the operations above leave it.
pub open spec fn wake_step(pending: bool, ev: WakeEvent) -> bool {
    match ev {
        WakeEvent::Signal => true,
        WakeEvent::Consume => false,
    }
}

/// The flag after a run of events.
pub open spec fn wake_after(pending: bool, evs: Seq<WakeEvent>) -> bool
    decreases evs.len(),
{
    if evs.len() == 0 {
        pending
    } else {
        wake_step(wake_after(pending, evs.drop_last()), evs.last())
    }
}

/// No event of the run consumes a wake-up.
pub open spec fn no_consume(evs: Seq<WakeEvent>) -> bool {
    forall|j: int| 0 <= j < evs.len() ==> #[trigger] evs[j] == WakeEvent::Signal
}

/// The sleeping loop's law: after a run of events, a consume finds a
/// wake-up exactly when one was pending at the start and nothing has
/// consumed it since, or a wake-up arrived after the last consume. So a
/// wake-up that arrives before the loop sleeps is never lost, a loop woken
/// without one (a spurious wake-up) goes back to sleep, and a consume that
/// finds one leaves none pending.
pub proof fn lemma_wake_never_lost(pending: bool, evs: Seq<WakeEvent>)
    ensures
        wake_after(pending, evs) <==> (pending && no_consume(evs)) || exists|i: int|
            0 <= i < evs.len() && #[trigger] evs[i] == WakeEvent::Signal && no_consume(
                evs.subrange(i + 1, evs.len() as int),
            ),
        !wake_after(pending, evs.push(WakeEvent::Consume)),
{
    let n = evs.len() as int;
    assert(evs.push(WakeEvent::Consume).drop_last() =~= evs);
    if n > 0 {
        if evs[n - 1] == WakeEvent::Signal {
            assert(no_consume(evs.subrange(n, n)));
        } else {
            assert(!no_consume(evs));
            assert forall|i: int|
                0 <= i < n && #[trigger] evs[i] == WakeEvent::Signal implies !no_consume(
                    evs.subrange(i + 1, n),
                ) by {
                assert(evs.subrange(i + 1, n)[n - 1 - (i + 1)] == evs[n - 1]);
            }
        }
    }
}

/// A task that `next_step` takes out for polling and that `return_task`
/// hands back still pending sits again under its entry's id: the table is
/// the one before the step with that entry replaced by the polled task, and
/// every other owned task is untouched.
pub proof fn lemma_pending_task_returns_under_its_id<R>(
    before: Map<usize, Task<R>>,
    r: ReadyTask,
    taken: Task<R>,
    polled: Task<R>,
)
    requires
        before.contains_key(r.task_id),
        taken == before[r.task_id],
        taken.spec_id() == r.task_id,
        polled.spec_id() == taken.spec_id(),
    ensures
        before.remove(r.task_id).insert(polled.spec_id(), polled) == before.insert(r.task_id, polled),
        before.remove(r.task_id).insert(polled.spec_id(), polled).dom() == before.dom(),
        forall|k: usize|
            k != r.task_id && before.contains_key(k) ==> #[trigger] before.remove(r.task_id).insert(
                polled.spec_id(),
                polled,
            )[k] == before[k],
{
    assert(before.remove(r.task_id).insert(polled.spec_id(), polled) =~= before.insert(r.task_id, polled));
    assert(before.insert(r.task_id, polled).dom() =~= before.dom());
}

} // verus!
