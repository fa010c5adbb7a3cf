//! A plain-value snapshot of the OS process table, and the process-tree
//! closure computed over it.
//!
//! Process trees are volatile: membership is recomputed from a fresh
//! snapshot on demand and never cached across invocations.

use vstd::prelude::*;

verus! {

broadcast use vstd::seq_lib::lemma_seq_contains_after_push;

/// One process-table entry, as plain values: the pid, the parent pid when
/// the table reports one, the executable name, and the command-line and
/// environment strings as the OS hands them out.
#[derive(Debug, Clone)]
pub struct ProcRecord {
    pub pid: u32,
    pub parent_pid: Option<u32>,
    pub name: String,
    pub cmd: Vec<String>,
    pub environ: Vec<String>,
}

/// Takes one snapshot of the live process table.
///
/// Relies on sysinfo: `System::new_all` loads the table and
/// `System::processes` hands out one entry per live pid; each record copies
/// that entry's `pid`, `parent`, `name`, `cmd` and `environ` as plain
/// values.  What is live depends on the machine at that moment, so nothing
/// is promised of the contents: every consumer takes the snapshot as an
/// argument and is verified for any value of it.
#[verifier::external_body]
pub(crate) fn scan_process_table() -> (r: Vec<ProcRecord>) {
    let sys = sysinfo::System::new_all();
    let mut out: Vec<ProcRecord> = Vec::new();
    for (pid, p) in sys.processes() {
        out.push(ProcRecord {
            pid: pid.as_u32(),
            parent_pid: p.parent().map(|q| q.as_u32()),
            name: p.name().to_string_lossy().into_owned(),
            cmd: p.cmd().iter().map(|a| a.to_string_lossy().into_owned()).collect(),
            environ: p.environ().iter().map(|a| a.to_string_lossy().into_owned()).collect(),
        });
    }
    out
}

/// The pids that the first `j` records of `s` report as children of a pid
/// in `acc`.
pub open spec fn child_pids(s: Seq<ProcRecord>, acc: Set<u32>, j: int) -> Set<u32> {
    Set::new(
        |p: u32|
            exists|i: int|
                0 <= i < j && (#[trigger] s[i]).pid == p && (s[i].parent_pid matches Some(pp)
                    && acc.contains(pp)),
    )
}

/// One round of closure: `acc` together with every pid that `s` reports as
/// a child of a pid in `acc`.
pub open spec fn tree_step(s: Seq<ProcRecord>, acc: Set<u32>) -> Set<u32> {
    acc + child_pids(s, acc, s.len() as int)
}

/// `k` rounds of closure starting from `root` alone.
pub open spec fn tree_at(s: Seq<ProcRecord>, root: u32, k: nat) -> Set<u32>
    decreases k,
{
    if k == 0 {
        Set::empty().insert(root)
    } else {
        tree_step(s, tree_at(s, root, (k - 1) as nat))
    }
}

/// The process tree rooted at `root` in the snapshot `s`: `root` and every
/// direct or indirect descendant.  `s.len()` closure rounds reach the fixed
/// point ([`lemma_tree_closed`]), so every pid reachable through parent
/// links is a member ([`lemma_tree_complete`]).
pub open spec fn tree_set(s: Seq<ProcRecord>, root: u32) -> Set<u32> {
    tree_at(s, root, s.len())
}

/// Every pid a tree over `s` can hold: the root and each record's pid.
spec fn pid_universe(s: Seq<ProcRecord>, root: u32) -> Set<u32> {
    s.map_values(|r: ProcRecord| r.pid).push(root).to_set()
}

proof fn lemma_tree_at_bounded(s: Seq<ProcRecord>, root: u32, k: nat)
    ensures
        tree_at(s, root, k).subset_of(pid_universe(s, root)),
        tree_at(s, root, k).finite(),
        tree_at(s, root, k).len() <= s.len() + 1,
    decreases k,
{
    let pseq = s.map_values(|r: ProcRecord| r.pid).push(root);
    let u = pid_universe(s, root);
    vstd::seq_lib::seq_to_set_is_finite::<u32>(pseq);
    pseq.lemma_cardinality_of_set();
    if k == 0 {
        assert(pseq[pseq.len() - 1] == root);
        assert(u.contains(root));
    } else {
        lemma_tree_at_bounded(s, root, (k - 1) as nat);
        assert forall|p: u32| tree_at(s, root, k).contains(p) implies u.contains(p) by {
            if !tree_at(s, root, (k - 1) as nat).contains(p) {
                let i = choose|i: int|
                    0 <= i < s.len() && (#[trigger] s[i]).pid == p && (s[i].parent_pid
                        matches Some(pp) && tree_at(s, root, (k - 1) as nat).contains(pp));
                assert(pseq[i] == p);
            }
        }
    }
    vstd::set_lib::lemma_len_subset(tree_at(s, root, k), u);
}

proof fn lemma_tree_progress(s: Seq<ProcRecord>, root: u32, k: nat)
    ensures
        tree_at(s, root, k + 1) == tree_at(s, root, k) || tree_at(s, root, k).len() >= k + 1,
    decreases k,
{
    lemma_tree_at_bounded(s, root, k);
    if k == 0 {
        assert(tree_at(s, root, 0).len() == 1) by {
            assert(tree_at(s, root, 0) =~= Set::empty().insert(root));
        }
    } else {
        lemma_tree_progress(s, root, (k - 1) as nat);
        let tk = tree_at(s, root, k);
        let tk1 = tree_at(s, root, (k - 1) as nat);
        if tk == tk1 {
            assert(tree_at(s, root, k + 1) == tree_step(s, tree_at(s, root, k)));
            assert(tree_step(s, tk) == tree_step(s, tk1));
            assert(tree_step(s, tk1) == tree_at(s, root, k));
        } else {
            lemma_tree_at_bounded(s, root, (k - 1) as nat);
            assert(tk1.subset_of(tk));
            if forall|p: u32| #[trigger] tk.contains(p) ==> tk1.contains(p) {
                assert(tk =~= tk1);
                assert(false);
            }
            let p = choose|p: u32| #[trigger] tk.contains(p) && !tk1.contains(p);
            tk1.lemma_subset_not_in_lt(tk, p);
        }
    }
}

/// The computed tree is closed: one more closure round adds nothing.  A
/// round either adds no pid or consumes one of the `s.len()` records, so
/// `s.len()` rounds reach the fixed point.
pub proof fn lemma_tree_closed(s: Seq<ProcRecord>, root: u32)
    ensures
        tree_step(s, tree_set(s, root)) == tree_set(s, root),
{
    let n = s.len();
    lemma_tree_progress(s, root, n);
    let tn = tree_set(s, root);
    let tn1 = tree_at(s, root, n + 1);
    assert(tn1 == tree_step(s, tn));
    if tn1 != tn {
        lemma_tree_at_bounded(s, root, n);
        lemma_tree_at_bounded(s, root, n + 1);
        assert(tn.subset_of(tn1));
        if forall|p: u32| #[trigger] tn1.contains(p) ==> tn.contains(p) {
            assert(tn =~= tn1);
            assert(false);
        }
        let p = choose|p: u32| #[trigger] tn1.contains(p) && !tn.contains(p);
        tn.lemma_subset_not_in_lt(tn1, p);
        assert(false);
    }
}

/// No descendant is missed: a record whose parent pid lies in the tree of
/// `root` has its own pid in that tree, so termination's signal fan-out
/// covers every process reachable through the snapshot's parent links.
pub proof fn lemma_tree_complete(s: Seq<ProcRecord>, root: u32, i: int)
    requires
        0 <= i < s.len(),
        s[i].parent_pid matches Some(pp) && tree_set(s, root).contains(pp),
    ensures
        tree_set(s, root).contains(s[i].pid),
{
    lemma_tree_closed(s, root);
    assert(child_pids(s, tree_set(s, root), s.len() as int).contains(s[i].pid));
}

proof fn lemma_tree_at_contains_root(s: Seq<ProcRecord>, root: u32, k: nat)
    ensures
        tree_at(s, root, k).contains(root),
    decreases k,
{
    if k > 0 {
        lemma_tree_at_contains_root(s, root, (k - 1) as nat);
    }
}

/// A process tree always holds its root: the resolved supervisor itself is
/// a member of the set that termination signals, not only its descendants.
pub proof fn lemma_tree_contains_root(s: Seq<ProcRecord>, root: u32)
    ensures
        tree_set(s, root).contains(root),
{
    lemma_tree_at_contains_root(s, root, s.len());
}

/// Polls whether a tracked pid is still live: takes a fresh snapshot,
/// looks the pid up with [`pid_alive`], and hands the snapshot back with
/// the verdict.  What is live depends on the machine at that moment;
/// whatever the scan returned, the verdict is exactly whether that
/// snapshot holds an entry for the pid.
pub fn probe_pid_alive(pid: u32) -> (r: (Vec<ProcRecord>, bool))
    ensures
        r.1 == exists|i: int| 0 <= i < r.0@.len() && (#[trigger] r.0@[i]).pid == pid,
{
    let snapshot = scan_process_table();
    let alive = pid_alive(&snapshot, pid);
    (snapshot, alive)
}

/// Whether the snapshot holds an entry for `pid`: the liveness check that
/// decides whether a tracked handle is still valid.
pub fn pid_alive(snapshot: &Vec<ProcRecord>, pid: u32) -> (r: bool)
    ensures
        r == exists|i: int| 0 <= i < snapshot@.len() && (#[trigger] snapshot@[i]).pid == pid,
{
    let n = snapshot.len();
    let mut i: usize = 0;
    while i < n
        invariant
            n == snapshot@.len(),
            i <= n,
            forall|k: int| 0 <= k < i ==> (#[trigger] snapshot@[k]).pid != pid,
        decreases n - i,
    {
        if snapshot[i].pid == pid {
            proof {
                assert((snapshot@[i as int]).pid == pid);
            }
            return true;
        }
        i += 1;
    }
    false
}

/// Linear membership scan.
pub fn contains_u32(v: &Vec<u32>, x: u32) -> (r: bool)
    ensures
        r == v@.contains(x),
{
    let mut i: usize = 0;
    while i < v.len()
        invariant
            i <= v@.len(),
            forall|k: int| 0 <= k < i ==> v@[k] != x,
        decreases v@.len() - i,
    {
        if v[i] == x {
            proof {
                assert(v@[i as int] == x);
            }
            return true;
        }
        i += 1;
    }
    false
}

/// Computes the process tree rooted at `root`: the members of
/// [`tree_set`], each pid listed once.
pub fn process_tree(snapshot: &Vec<ProcRecord>, root: u32) -> (r: Vec<u32>)
    ensures
        forall|p: u32| #[trigger] r@.contains(p) <==> tree_set(snapshot@, root).contains(p),
{
    let n = snapshot.len();
    let mut members: Vec<u32> = Vec::new();
    members.push(root);
    proof {
        assert(forall|p: u32| #[trigger] members@.contains(p) <==> tree_at(
            snapshot@,
            root,
            0,
        ).contains(p)) by {
            assert(members@[0] == root);
        }
    }
    let mut k: usize = 0;
    while k < n
        invariant
            n == snapshot@.len(),
            k <= n,
            forall|p: u32| #[trigger] members@.contains(p) <==> tree_at(
                snapshot@,
                root,
                k as nat,
            ).contains(p),
        decreases n - k,
    {
        let ghost base = tree_at(snapshot@, root, k as nat);
        let mut additions: Vec<u32> = Vec::new();
        let mut j: usize = 0;
        while j < n
            invariant
                n == snapshot@.len(),
                j <= n,
                forall|p: u32| #[trigger] members@.contains(p) <==> base.contains(p),
                forall|p: u32| #[trigger] additions@.contains(p) <==> (child_pids(
                    snapshot@,
                    base,
                    j as int,
                ).contains(p) && !base.contains(p)),
            decreases n - j,
        {
            let rec = &snapshot[j];
            if let Some(pp) = rec.parent_pid {
                if contains_u32(&members, pp) && !contains_u32(&members, rec.pid)
                    && !contains_u32(&additions, rec.pid) {
                    additions.push(rec.pid);
                }
            }
            proof {
                let r = snapshot@[j as int];
                assert(forall|p: u32| #[trigger] child_pids(snapshot@, base, j + 1).contains(p)
                    <==> (child_pids(snapshot@, base, j as int).contains(p) || ((r.parent_pid
                    matches Some(pp) && base.contains(pp)) && r.pid == p)));
            }
            j += 1;
        }
        let ghost m0 = members@;
        let mut t: usize = 0;
        while t < additions.len()
            invariant
                t <= additions@.len(),
                forall|p: u32| #[trigger] members@.contains(p) <==> (m0.contains(p)
                    || additions@.subrange(0, t as int).contains(p)),
            decreases additions@.len() - t,
        {
            let x = additions[t];
            members.push(x);
            proof {
                assert(additions@.subrange(0, t + 1) =~= additions@.subrange(0, t as int).push(
                    additions@[t as int],
                ));
            }
            t += 1;
        }
        proof {
            assert(additions@.subrange(0, additions@.len() as int) =~= additions@);
            assert(forall|p: u32| #[trigger] members@.contains(p) <==> tree_step(
                snapshot@,
                base,
            ).contains(p));
        }
        k += 1;
    }
    members
}

} // verus!
