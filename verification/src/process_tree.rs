use vstd::prelude::*;
use std::collections::HashMap;

verus! {

broadcast use vstd::std_specs::hash::group_hash_axioms;

/// What the memory monitor reads of one process.
#[derive(Clone, Copy, Debug, PartialEq, Eq, Structural)]
pub struct ProcessEntry {
    pub pid: u32,
    pub parent: Option<u32>,
    pub memory_bytes: u64,
}

/// A snapshot of the system's process table: each process by pid, and the
/// pids in the order they were added.
pub struct ProcessTable {
    by_pid: HashMap<u32, ProcessEntry>,
    order: Vec<u32>,
}

/// Where the walk from a process towards the root of the process tree stands.
pub enum WalkState {
    /// The walk is at this pid.
    At(u32),
    /// The walk reached the root.
    Found,
    /// The walk left the table or reached a process without parent.
    Lost,
}

/// The walk from `pid` up the parent links after `n` steps: a step at `root`
/// ends in `Found`, a step at a pid missing from the table or without
/// parent ends in `Lost`, and otherwise moves to the parent.
pub open spec fn walk(m: Map<u32, ProcessEntry>, pid: u32, root: u32, n: nat) -> WalkState
    decreases n,
{
    if n == 0 {
        WalkState::At(pid)
    } else {
        match walk(m, pid, root, (n - 1) as nat) {
            WalkState::At(c) => if c == root {
                WalkState::Found
            } else if !m.contains_key(c) {
                WalkState::Lost
            } else {
                match m[c].parent {
                    Some(p) => WalkState::At(p),
                    None => WalkState::Lost,
                }
            },
            other => other,
        }
    }
}

/// The walk from `pid` comes to an end (it does not run around a cycle of
/// parent links that avoids `root`).
pub open spec fn walk_ends(m: Map<u32, ProcessEntry>, pid: u32, root: u32) -> bool {
    exists|n: nat| !(#[trigger] walk(m, pid, root, n) is At)
}

/// `pid` is `root` or one of its descendants.
pub open spec fn descends_from(m: Map<u32, ProcessEntry>, pid: u32, root: u32) -> bool {
    exists|n: nat| #[trigger] walk(m, pid, root, n) is Found
}

/// Memory, in KiB rounded down per process, of the processes of `pids` that
/// descend from `root`.
pub open spec fn tree_memory_kb(m: Map<u32, ProcessEntry>, pids: Seq<u32>, root: u32) -> int
    decreases pids.len(),
{
    if pids.len() == 0 {
        0
    } else {
        let p = pids.last();
        tree_memory_kb(m, pids.drop_last(), root) + (if descends_from(m, p, root) {
            m[p].memory_bytes / 1024
        } else {
            0
        })
    }
}

proof fn lemma_walk_settles(m: Map<u32, ProcessEntry>, pid: u32, root: u32, a: nat, b: nat)
    requires
        a <= b,
        !(walk(m, pid, root, a) is At),
    ensures
        walk(m, pid, root, b) == walk(m, pid, root, a),
    decreases b - a,
{
    if a < b {
        lemma_walk_settles(m, pid, root, a, (b - 1) as nat);
    }
}

impl ProcessTable {
    pub closed spec fn view_map(&self) -> Map<u32, ProcessEntry> {
        self.by_pid@
    }

    pub closed spec fn pids(&self) -> Seq<u32> {
        self.order@
    }

    pub closed spec fn wf(&self) -> bool {
        &&& self.order@.no_duplicates()
        &&& forall|p: u32| #[trigger] self.by_pid@.contains_key(p) <==> self.order@.contains(p)
        &&& forall|p: u32| #[trigger] self.by_pid@.contains_key(p) ==> self.by_pid@[p].pid == p
    }

    /// An empty table.
    pub fn new() -> (t: Self)
        ensures
            t.wf(),
            t.view_map() == Map::<u32, ProcessEntry>::empty(),
            t.pids() == Seq::<u32>::empty(),
    {
        ProcessTable { by_pid: HashMap::new(), order: Vec::new() }
    }

    /// Adds a process that is not in the table yet.
    pub fn insert(&mut self, pid: u32, parent: Option<u32>, memory_bytes: u64)
        requires
            old(self).wf(),
            !old(self).view_map().contains_key(pid),
        ensures
            final(self).wf(),
            final(self).view_map() == old(self).view_map().insert(
                pid,
                ProcessEntry { pid, parent, memory_bytes },
            ),
            final(self).pids() == old(self).pids().push(pid),
    {
        self.by_pid.insert(pid, ProcessEntry { pid, parent, memory_bytes });
        self.order.push(pid);
        proof {
            assert forall|p: u32| #[trigger] self.by_pid@.contains_key(p) <==> self.order@.contains(p) by {
                if p != pid {
                    if old(self).order@.contains(p) {
                        let k = choose|k: int| 0 <= k < old(self).order@.len() && old(self).order@[k] == p;
                        assert(self.order@[k] == p);
                    }
                    if self.order@.contains(p) {
                        let k = choose|k: int| 0 <= k < self.order@.len() && self.order@[k] == p;
                        assert(k < old(self).order@.len());
                        assert(old(self).order@[k] == p);
                    }
                } else {
                    assert(self.order@[self.order@.len() - 1] == pid);
                }
            }
            assert forall|i: int, j: int|
                0 <= i < self.order@.len() && 0 <= j < self.order@.len() && i != j implies self.order@[i]
                != self.order@[j] by {
                if i == self.order@.len() - 1 {
                    assert(old(self).order@.contains(self.order@[j]));
                } else if j == self.order@.len() - 1 {
                    assert(old(self).order@.contains(self.order@[i]));
                }
            }
        }
    }

    /// Number of processes.
    pub fn len(&self) -> (n: usize)
        requires
            self.wf(),
        ensures
            n == self.pids().len(),
    {
        self.order.len()
    }
}

/// Whether process `pid` is `root_pid` or descends from it, following the
/// parent links of `table`. The walk must come to an end: on a cycle of
/// parent links that avoids the root it would not.
pub fn is_descendant_of(pid: u32, root_pid: u32, table: &ProcessTable) -> (b: bool)
    requires
        walk_ends(table.view_map(), pid, root_pid),
    ensures
        b == descends_from(table.view_map(), pid, root_pid),
{
    let ghost m = table.view_map();
    let ghost end: nat = choose|n: nat| !(#[trigger] walk(m, pid, root_pid, n) is At);
    let mut current = pid;
    let ghost mut steps: nat = 0;
    loop
        invariant
            m == table.view_map(),
            !(walk(m, pid, root_pid, end) is At),
            walk(m, pid, root_pid, steps) == WalkState::At(current),
            steps <= end,
        decreases end - steps,
    {
        proof {
            if steps == end {
                assert(false);
            }
        }
        let ghost next = walk(m, pid, root_pid, steps + 1);
        if current == root_pid {
            proof {
                assert(next is Found);
                assert(descends_from(m, pid, root_pid));
            }
            return true;
        }
        let entry = match table.by_pid.get(&current) {
            Some(e) => e,
            None => {
                proof {
                    assert(next is Lost);
                    lemma_lost_is_final(m, pid, root_pid, steps + 1);
                }
                return false;
            },
        };
        match entry.parent {
            Some(parent) => {
                current = parent;
                proof {
                    steps = steps + 1;
                }
            },
            None => {
                proof {
                    assert(next is Lost);
                    lemma_lost_is_final(m, pid, root_pid, steps + 1);
                }
                return false;
            },
        }
    }
}

proof fn lemma_lost_is_final(m: Map<u32, ProcessEntry>, pid: u32, root: u32, n: nat)
    requires
        walk(m, pid, root, n) is Lost,
    ensures
        !descends_from(m, pid, root),
{
    if descends_from(m, pid, root) {
        let k = choose|k: nat| #[trigger] walk(m, pid, root, k) is Found;
        if k <= n {
            lemma_walk_settles(m, pid, root, k, n);
        } else {
            lemma_walk_settles(m, pid, root, n, k);
        }
    }
}

/// Memory, in KiB, of the process tree rooted at `root_pid`: the sum, over
/// the processes of the table that descend from `root_pid` (the root
/// included), of each one's memory in bytes divided by 1024.
pub fn process_tree_memory_kb(table: &ProcessTable, root_pid: u32) -> (kb: u64)
    requires
        table.wf(),
        forall|p: u32| table.view_map().contains_key(p) ==> #[trigger] walk_ends(table.view_map(), p, root_pid),
        tree_memory_kb(table.view_map(), table.pids(), root_pid) <= u64::MAX,
    ensures
        kb == tree_memory_kb(table.view_map(), table.pids(), root_pid),
{
    let ghost m = table.view_map();
    let ghost pids = table.pids();
    let n = table.order.len();
    let mut total: u64 = 0;
    let mut i: usize = 0;
    while i < n
        invariant
            table.wf(),
            m == table.view_map(),
            pids == table.pids(),
            n == pids.len(),
            i <= n,
            forall|p: u32| m.contains_key(p) ==> #[trigger] walk_ends(m, p, root_pid),
            tree_memory_kb(m, pids, root_pid) <= u64::MAX,
            total == tree_memory_kb(m, pids.take(i as int), root_pid),
        decreases n - i,
    {
        let pid = table.order[i];
        proof {
            assert(pids.contains(pid));
            assert(m.contains_key(pid));
            assert(pids.take(i + 1).drop_last() =~= pids.take(i as int));
            lemma_tree_memory_prefix(m, pids, root_pid, i + 1);
        }
        let inside = is_descendant_of(pid, root_pid, table);
        if inside {
            let entry = table.by_pid.get(&pid).unwrap();
            total = total + entry.memory_bytes / 1024;
        }
        i = i + 1;
    }
    proof {
        assert(pids.take(n as int) =~= pids);
    }
    total
}

/// Follows the parent links from `pid` for at most `fuel` steps: whether
/// `pid` descends from `root_pid` when the walk ends within them, `None`
/// when it is still going after `fuel` steps.
pub fn bounded_descends(pid: u32, root_pid: u32, table: &ProcessTable, fuel: u128) -> (r: Option<bool>)
    ensures
        r is None ==> walk(table.view_map(), pid, root_pid, fuel as nat) is At,
        r matches Some(b) ==> walk_ends(table.view_map(), pid, root_pid) && b == descends_from(
            table.view_map(),
            pid,
            root_pid,
        ),
{
    let ghost m = table.view_map();
    let mut current = pid;
    let mut steps: u128 = 0;
    while steps < fuel
        invariant
            m == table.view_map(),
            steps <= fuel,
            walk(m, pid, root_pid, steps as nat) == WalkState::At(current),
        decreases fuel - steps,
    {
        let ghost next = walk(m, pid, root_pid, (steps + 1) as nat);
        if current == root_pid {
            proof {
                assert(next is Found);
                assert(descends_from(m, pid, root_pid));
            }
            return Some(true);
        }
        let entry = match table.by_pid.get(&current) {
            Some(e) => e,
            None => {
                proof {
                    assert(next is Lost);
                    lemma_lost_is_final(m, pid, root_pid, (steps + 1) as nat);
                }
                return Some(false);
            },
        };
        match entry.parent {
            Some(parent) => {
                current = parent;
                steps = steps + 1;
            },
            None => {
                proof {
                    assert(next is Lost);
                    lemma_lost_is_final(m, pid, root_pid, (steps + 1) as nat);
                }
                return Some(false);
            },
        }
    }
    None
}

/// The memory of the process tree rooted at `root_pid`, as
/// `process_tree_memory_kb` computes it, checking its conditions on the way:
/// `None` when the walk up the parent links from some process of the table
/// goes on for more steps than the table has processes, or when the total
/// does not fit in a `u64`.
pub fn checked_process_tree_memory_kb(table: &ProcessTable, root_pid: u32) -> (r: Option<u64>)
    requires
        table.wf(),
    ensures
        r matches Some(kb) ==> (forall|p: u32| table.view_map().contains_key(p) ==> #[trigger] walk_ends(table.view_map(), p, root_pid))
            && kb == tree_memory_kb(table.view_map(), table.pids(), root_pid),
        r is None ==> (exists|p: u32| table.view_map().contains_key(p) && #[trigger] walk(table.view_map(), p, root_pid, (table.pids().len() + 1) as nat) is At)
            || tree_memory_kb(table.view_map(), table.pids(), root_pid) > u64::MAX,
{
    let ghost m = table.view_map();
    let ghost pids = table.pids();
    let n = table.order.len();
    let fuel: u128 = n as u128 + 1;
    let mut total: u64 = 0;
    let mut i: usize = 0;
    while i < n
        invariant
            table.wf(),
            m == table.view_map(),
            pids == table.pids(),
            n == pids.len(),
            fuel == n + 1,
            i <= n,
            forall|k: int| 0 <= k < i ==> #[trigger] walk_ends(m, pids[k], root_pid),
            total == tree_memory_kb(m, pids.take(i as int), root_pid),
        decreases n - i,
    {
        let pid = table.order[i];
        proof {
            assert(pids.contains(pid));
            assert(m.contains_key(pid));
            assert(pids.take(i + 1).drop_last() =~= pids.take(i as int));
        }
        let inside = match bounded_descends(pid, root_pid, table, fuel) {
            Some(b) => b,
            None => {
                proof {
                    assert(walk(m, pid, root_pid, (pids.len() + 1) as nat) is At);
                }
                return None;
            },
        };
        if inside {
            let entry = table.by_pid.get(&pid).unwrap();
            match total.checked_add(entry.memory_bytes / 1024) {
                Some(t) => {
                    total = t;
                },
                None => {
                    proof {
                        assert(*entry == m[pid]);
                        assert(pids.take(i + 1).last() == pid);
                        assert(tree_memory_kb(m, pids.take(i + 1), root_pid) == total + entry.memory_bytes / 1024);
                        lemma_tree_memory_prefix(m, pids, root_pid, i + 1);
                    }
                    return None;
                },
            }
        }
        i = i + 1;
    }
    proof {
        assert(pids.take(n as int) =~= pids);
        assert forall|p: u32| m.contains_key(p) implies #[trigger] walk_ends(m, p, root_pid) by {
            assert(pids.contains(p));
            let k = choose|k: int| 0 <= k < pids.len() && pids[k] == p;
            assert(walk_ends(m, pids[k], root_pid));
        }
    }
    Some(total)
}

proof fn lemma_tree_memory_prefix(m: Map<u32, ProcessEntry>, pids: Seq<u32>, root: u32, k: int)
    requires
        0 <= k <= pids.len(),
    ensures
        0 <= tree_memory_kb(m, pids.take(k), root) <= tree_memory_kb(m, pids, root),
    decreases pids.len() - k,
{
    if k < pids.len() {
        lemma_tree_memory_prefix(m, pids, root, k + 1);
        assert(pids.take(k + 1).drop_last() =~= pids.take(k));
        lemma_tree_memory_nonneg(m, pids.take(k), root);
        assert(tree_memory_kb(m, pids.take(k + 1), root) >= tree_memory_kb(m, pids.take(k), root));
    } else {
        assert(pids.take(k) =~= pids);
        lemma_tree_memory_nonneg(m, pids, root);
    }
}

proof fn lemma_tree_memory_nonneg(m: Map<u32, ProcessEntry>, pids: Seq<u32>, root: u32)
    ensures
        tree_memory_kb(m, pids, root) >= 0,
    decreases pids.len(),
{
    if pids.len() > 0 {
        lemma_tree_memory_nonneg(m, pids.drop_last(), root);
    }
}

} // verus!
