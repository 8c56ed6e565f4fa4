use vstd::prelude::*;

verus! {

/// The four scheduling classes a task can belong to.
#[derive(Clone, Copy, Debug, PartialEq, Eq, Structural, PartialOrd, Ord, Hash)]
pub enum TaskPriority {
    Low,
    Normal,
    High,
    Critical,
}

/// Numeric rank of a priority class: `Low` is 0 and `Critical` is 3.
pub open spec fn priority_rank(p: TaskPriority) -> nat {
    match p {
        TaskPriority::Low => 0,
        TaskPriority::Normal => 1,
        TaskPriority::High => 2,
        TaskPriority::Critical => 3,
    }
}

impl TaskPriority {
    /// The numeric score of the priority class.
    pub fn score(self) -> (s: u8)
        ensures
            s == priority_rank(self),
    {
        match self {
            TaskPriority::Low => 0,
            TaskPriority::Normal => 1,
            TaskPriority::High => 2,
            TaskPriority::Critical => 3,
        }
    }
}

/// Distinct classes have distinct ranks, so a rank identifies its class.
pub proof fn lemma_rank_injective(a: TaskPriority, b: TaskPriority)
    ensures
        priority_rank(a) == priority_rank(b) <==> a == b,
{
}

} // verus!
