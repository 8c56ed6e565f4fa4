use vstd::prelude::*;
use std::collections::HashMap;

verus! {

broadcast use vstd::std_specs::hash::group_hash_axioms;

/// Where a task registered with the reactor stands.
///
/// `NotReady` holds the waker to call when the task's timer fires.
pub enum TaskState<W> {
    Ready,
    NotReady(W),
    Finished,
}

/// A timer the reactor's event loop must arm: after `delay_secs` seconds the
/// task `task_id` is to be woken.
#[derive(Clone, Copy, Debug, PartialEq, Eq, Structural)]
pub struct TimerRequest {
    pub delay_secs: u64,
    pub task_id: usize,
}

/// The reactor's bookkeeping: the state of every task it has seen.
///
/// `W` is the type of waker stored for a task that waits for its timer.
pub struct ReactorTable<W> {
    tasks: HashMap<usize, TaskState<W>>,
}

impl<W> View for ReactorTable<W> {
    type V = Map<usize, TaskState<W>>;

    closed spec fn view(&self) -> Map<usize, TaskState<W>> {
        self.tasks@
    }
}

/// The task is known and its timer has fired.
pub open spec fn slot_is_ready<W>(m: Map<usize, TaskState<W>>, id: usize) -> bool {
    m.contains_key(id) && m[id] is Ready
}

/// The task is known and waits for its timer.
pub open spec fn slot_is_waiting<W>(m: Map<usize, TaskState<W>>, id: usize) -> bool {
    m.contains_key(id) && m[id] is NotReady
}

/// The task is known and has finished.
pub open spec fn slot_is_finished<W>(m: Map<usize, TaskState<W>>, id: usize) -> bool {
    m.contains_key(id) && m[id] is Finished
}

impl<W> ReactorTable<W> {
    /// A table with no task.
    pub fn new() -> (t: Self)
        ensures
            t@ == Map::<usize, TaskState<W>>::empty(),
    {
        ReactorTable { tasks: HashMap::new() }
    }

    /// Whether the timer of task `id` has fired and the task may go on.
    pub fn is_ready(&self, id: usize) -> (b: bool)
        ensures
            b == slot_is_ready(self@, id),
    {
        match self.tasks.get(&id) {
            Some(TaskState::Ready) => true,
            _ => false,
        }
    }

    /// Whether task `id` waits for its timer.
    pub fn is_waiting(&self, id: usize) -> (b: bool)
        ensures
            b == slot_is_waiting(self@, id),
    {
        match self.tasks.get(&id) {
            Some(TaskState::NotReady(_)) => true,
            _ => false,
        }
    }

    /// Whether task `id` has finished.
    pub fn is_finished(&self, id: usize) -> (b: bool)
        ensures
            b == slot_is_finished(self@, id),
    {
        match self.tasks.get(&id) {
            Some(TaskState::Finished) => true,
            _ => false,
        }
    }

    /// Whether the reactor knows task `id`.
    pub fn has_task(&self, id: usize) -> (b: bool)
        ensures
            b == self@.contains_key(id),
    {
        self.tasks.contains_key(&id)
    }

    /// Replaces the waker of a task that waits for its timer.
    pub fn update_waker(&mut self, id: usize, waker: W)
        requires
            slot_is_waiting(old(self)@, id),
        ensures
            final(self)@ == old(self)@.insert(id, TaskState::NotReady(waker)),
    {
        self.tasks.insert(id, TaskState::NotReady(waker));
    }

    /// Registers a new task that waits `duration` seconds; the returned timer
    /// must be armed.
    pub fn register(&mut self, duration: u64, waker: W, id: usize) -> (r: TimerRequest)
        requires
            !old(self)@.contains_key(id),
        ensures
            final(self)@ == old(self)@.insert(id, TaskState::NotReady(waker)),
            r == (TimerRequest { delay_secs: duration, task_id: id }),
    {
        self.tasks.insert(id, TaskState::NotReady(waker));
        TimerRequest { delay_secs: duration, task_id: id }
    }

    /// Sends a task whose timer fired back to waiting for `duration` more
    /// seconds; the returned timer must be armed.
    pub fn rearm(&mut self, duration: u64, waker: W, id: usize) -> (r: TimerRequest)
        requires
            slot_is_ready(old(self)@, id),
        ensures
            final(self)@ == old(self)@.insert(id, TaskState::NotReady(waker)),
            r == (TimerRequest { delay_secs: duration, task_id: id }),
    {
        self.tasks.insert(id, TaskState::NotReady(waker));
        TimerRequest { delay_secs: duration, task_id: id }
    }

    /// Marks a task whose timer fired as finished.
    pub fn finish(&mut self, id: usize)
        requires
            slot_is_ready(old(self)@, id),
        ensures
            final(self)@ == old(self)@.insert(id, TaskState::Finished),
    {
        self.tasks.insert(id, TaskState::Finished);
    }

    /// The timer of a waiting task fired: the task becomes ready and its
    /// waker is handed back, to be woken.
    pub fn wake(&mut self, id: usize) -> (waker: W)
        requires
            slot_is_waiting(old(self)@, id),
        ensures
            final(self)@ == old(self)@.insert(id, TaskState::Ready),
            old(self)@[id] == TaskState::NotReady(waker),
    {
        let previous = self.tasks.insert(id, TaskState::Ready);
        match previous {
            Some(TaskState::NotReady(waker)) => waker,
            _ => vstd::pervasive::unreached(),
        }
    }
}

} // verus!
