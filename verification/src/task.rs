use vstd::prelude::*;
use crate::priority::TaskPriority;
use crate::reactor::{ReactorTable, TaskState, TimerRequest, slot_is_finished};

verus! {

/// Seconds a task waits on the reactor each time it yields.
pub const YIELD_DELAY_SECONDS: u64 = 1;

/// A unit of work that yields a fixed number of times, each time waiting one
/// timer period on the reactor, and then completes with its id.
///
/// `R` is the handle through which the task reaches its reactor.
pub struct Task<R> {
    id: usize,
    reactor: R,
    data: u64,
    priority: TaskPriority,
    yields_left: usize,
}

/// Where a task stands in the reactor's table.
#[derive(Clone, Copy, Debug, PartialEq, Eq, Structural)]
pub enum SlotPhase {
    Absent,
    Waiting,
    Ready,
    Finished,
}

pub open spec fn phase_of<W>(m: Map<usize, TaskState<W>>, id: usize) -> SlotPhase {
    if !m.contains_key(id) {
        SlotPhase::Absent
    } else {
        match m[id] {
            TaskState::Ready => SlotPhase::Ready,
            TaskState::NotReady(_) => SlotPhase::Waiting,
            TaskState::Finished => SlotPhase::Finished,
        }
    }
}

/// What one poll does: the task's new phase, its remaining yields, whether it
/// completed, and whether it asked for a timer.
pub struct PollStep {
    pub phase: SlotPhase,
    pub yields_left: nat,
    pub completed: bool,
    pub arms_timer: bool,
}

/// One poll of a task in phase `phase` with `yields_left` yields to go.
///
/// A ready task completes when no yield is left and otherwise spends one
/// yield and waits again; a waiting task keeps waiting; an unknown task
/// completes at once when no yield is left and otherwise spends one yield and
/// starts waiting.
pub open spec fn poll_step(phase: SlotPhase, yields_left: nat) -> PollStep {
    match phase {
        SlotPhase::Ready => if yields_left == 0 {
            PollStep { phase: SlotPhase::Finished, yields_left: 0, completed: true, arms_timer: false }
        } else {
            PollStep {
                phase: SlotPhase::Waiting,
                yields_left: (yields_left - 1) as nat,
                completed: false,
                arms_timer: true,
            }
        },
        SlotPhase::Waiting => PollStep {
            phase: SlotPhase::Waiting,
            yields_left,
            completed: false,
            arms_timer: false,
        },
        _ => if yields_left == 0 {
            PollStep { phase, yields_left: 0, completed: true, arms_timer: false }
        } else {
            PollStep {
                phase: SlotPhase::Waiting,
                yields_left: (yields_left - 1) as nat,
                completed: false,
                arms_timer: true,
            }
        },
    }
}

/// The timer of a waiting task fires.
pub open spec fn wake_step(phase: SlotPhase) -> SlotPhase {
    match phase {
        SlotPhase::Waiting => SlotPhase::Ready,
        _ => phase,
    }
}

/// The outcome of polling a task once.
#[derive(Clone, Copy, Debug, PartialEq, Eq, Structural)]
pub enum TaskPoll {
    /// The task completed with this value (its id).
    Ready(usize),
    /// The task is not done; when it asks for a timer, the timer must be armed.
    Pending(Option<TimerRequest>),
}

impl<R> Task<R> {
    pub closed spec fn spec_id(&self) -> usize {
        self.id
    }

    pub closed spec fn spec_data(&self) -> u64 {
        self.data
    }

    pub closed spec fn spec_priority(&self) -> TaskPriority {
        self.priority
    }

    pub closed spec fn spec_yields_left(&self) -> usize {
        self.yields_left
    }

    pub closed spec fn spec_reactor(&self) -> R {
        self.reactor
    }

    /// A task `id` of class `priority` that yields `yields_left` times.
    pub fn new(reactor: R, data: u64, id: usize, priority: TaskPriority, yields_left: usize) -> (t: Self)
        ensures
            t.spec_id() == id,
            t.spec_data() == data,
            t.spec_priority() == priority,
            t.spec_yields_left() == yields_left,
            t.spec_reactor() == reactor,
    {
        Task { id, reactor, data, priority, yields_left }
    }

    pub fn id(&self) -> (r: usize)
        ensures
            r == self.spec_id(),
    {
        self.id
    }

    pub fn priority(&self) -> (r: TaskPriority)
        ensures
            r == self.spec_priority(),
    {
        self.priority
    }

    pub fn data(&self) -> (r: u64)
        ensures
            r == self.spec_data(),
    {
        self.data
    }

    pub fn yields_left(&self) -> (r: usize)
        ensures
            r == self.spec_yields_left(),
    {
        self.yields_left
    }

    /// The handle of the reactor the task waits on.
    pub fn reactor(&self) -> (r: &R)
        ensures
            *r == self.spec_reactor(),
    {
        &self.reactor
    }

    /// Polls the task once against the reactor's table; `waker` is the waker
    /// of the current poll. A finished task is never polled again.
    pub fn poll_with<W>(&mut self, table: &mut ReactorTable<W>, waker: W) -> (out: TaskPoll)
        requires
            !slot_is_finished(old(table)@, old(self).spec_id()),
        ensures
            ({
                let id = old(self).spec_id();
                let step = poll_step(phase_of(old(table)@, id), old(self).spec_yields_left() as nat);
                &&& final(self).spec_id() == id
                &&& final(self).spec_data() == old(self).spec_data()
                &&& final(self).spec_priority() == old(self).spec_priority()
                &&& final(self).spec_reactor() == old(self).spec_reactor()
                &&& final(self).spec_yields_left() == step.yields_left
                &&& phase_of(final(table)@, id) == step.phase
                &&& final(table)@.remove(id) == old(table)@.remove(id)
                &&& step.phase == SlotPhase::Waiting ==> final(table)@[id] == TaskState::NotReady(waker)
                &&& step.phase == phase_of(old(table)@, id) && step.phase != SlotPhase::Waiting
                    ==> final(table)@ == old(table)@
                &&& (out is Ready) == step.completed
                &&& out is Ready ==> out == TaskPoll::Ready(id)
                &&& out is Pending ==> out == TaskPoll::Pending(
                    if step.arms_timer {
                        Some(TimerRequest { delay_secs: YIELD_DELAY_SECONDS, task_id: id })
                    } else {
                        None
                    },
                )
            }),
    {
        let id = self.id;
        if table.is_ready(id) {
            if self.yields_left == 0 {
                table.finish(id);
                proof {
                    assert(table@.remove(id) =~= old(table)@.remove(id));
                }
                TaskPoll::Ready(id)
            } else {
                self.yields_left = self.yields_left - 1;
                let request = table.rearm(YIELD_DELAY_SECONDS, waker, id);
                proof {
                    assert(table@.remove(id) =~= old(table)@.remove(id));
                }
                TaskPoll::Pending(Some(request))
            }
        } else if table.has_task(id) {
            table.update_waker(id, waker);
            proof {
                assert(table@.remove(id) =~= old(table)@.remove(id));
            }
            TaskPoll::Pending(None)
        } else if self.yields_left == 0 {
            TaskPoll::Ready(id)
        } else {
            self.yields_left = self.yields_left - 1;
            let request = table.register(YIELD_DELAY_SECONDS, waker, id);
            proof {
                assert(table@.remove(id) =~= old(table)@.remove(id));
            }
            TaskPoll::Pending(Some(request))
        }
    }
}

/// The phase and remaining yields after `n` rounds of "poll, then let the
/// timer fire" starting from `phase` with `yields_left` to go.
pub open spec fn after_rounds(phase: SlotPhase, yields_left: nat, n: nat) -> (SlotPhase, nat)
    decreases n,
{
    if n == 0 {
        (phase, yields_left)
    } else {
        let (p, y) = after_rounds(phase, yields_left, (n - 1) as nat);
        let step = poll_step(p, y);
        (wake_step(step.phase), step.yields_left)
    }
}

/// A fresh task that yields `k` times stays pending, asking for one timer,
/// on each of its first `k` polls when every timer fires before the next
/// poll, and completes on poll `k + 1`.
pub proof fn lemma_task_completes_after_its_yields(k: nat)
    ensures
        forall|i: nat| #![trigger after_rounds(SlotPhase::Absent, k, i)]
            i < k ==> {
                let (p, y) = after_rounds(SlotPhase::Absent, k, i);
                &&& !poll_step(p, y).completed
                &&& poll_step(p, y).arms_timer
            },
        ({
            let (p, y) = after_rounds(SlotPhase::Absent, k, k);
            poll_step(p, y).completed
        }),
{
    assert forall|i: nat| i <= k implies #[trigger] after_rounds(SlotPhase::Absent, k, i) == (
        if i == 0 { SlotPhase::Absent } else { SlotPhase::Ready },
        (k - i) as nat,
    ) by {
        lemma_rounds_shape(k, i);
    }
}

proof fn lemma_rounds_shape(k: nat, i: nat)
    requires
        i <= k,
    ensures
        after_rounds(SlotPhase::Absent, k, i) == (
            if i == 0 { SlotPhase::Absent } else { SlotPhase::Ready },
            (k - i) as nat,
        ),
    decreases i,
{
    if i > 0 {
        lemma_rounds_shape(k, (i - 1) as nat);
    }
}

} // verus!
