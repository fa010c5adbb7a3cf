//! Termination of a tracked title's whole process tree.
//!
//! The tracked pid is frequently an intermediate supervisor, not the leaf
//! game binary, so termination re-resolves the supervisor from a fresh
//! snapshot, computes its tree, and signals every member individually —
//! there is no "kill tree" primitive.  A title whose tree does not match
//! the compatibility-layer shape (a direct-launch title) falls back to an
//! exact-name match on the last path component of its executable.

use vstd::prelude::*;
use crate::process_table::{scan_process_table, process_tree, contains_u32, ProcRecord, tree_set};
use crate::state::{ProcessHandle, TerminationError, TitleId};
use crate::strutil::{basename, basename_of, str_eq};
use crate::tracker::{resolve_supervisor, resolves_to};

verus! {

broadcast use vstd::seq_lib::lemma_seq_contains_after_push;

/// Some record of `s` has pid `q` and executable name `bn`.
pub open spec fn named_pid(s: Seq<ProcRecord>, bn: Seq<char>, q: u32) -> bool {
    named_pid_upto(s, bn, q, s.len() as int)
}

/// Some record among the first `m` of `s` has pid `q` and executable name
/// `bn`.
pub open spec fn named_pid_upto(s: Seq<ProcRecord>, bn: Seq<char>, q: u32, m: int) -> bool {
    exists|i: int| 0 <= i < m && (#[trigger] s[i]).pid == q && s[i].name@ == bn
}

/// The pids to signal for `handle` in the snapshot: for an indirect-launch
/// title, the resolved supervisor's whole process tree, or nothing when no
/// supervisor resolves (the tree is already gone — termination is
/// idempotent); for a direct-launch title, every pid whose executable name
/// equals the last path component of the tracked executable.  The match is
/// against the name as the snapshot records it: on Linux the process table
/// truncates a name to 15 characters, so an executable with a longer
/// basename can escape the fallback.
pub fn kill_set(snapshot: &Vec<ProcRecord>, handle: &ProcessHandle) -> (r: Vec<u32>)
    ensures
        handle.title_id matches TitleId::Steam(id) ==> ((exists|p: u32|
            resolves_to(snapshot@, id, p)) ==> (exists|p: u32|
            resolves_to(snapshot@, id, p) && forall|q: u32| #[trigger] r@.contains(q)
                <==> tree_set(snapshot@, p).contains(q))) && ((forall|p: u32|
            !resolves_to(snapshot@, id, p)) ==> r@.len() == 0),
        handle.title_id matches TitleId::Exe(path) ==> forall|q: u32| #[trigger] r@.contains(q)
            <==> named_pid(snapshot@, basename_of(path@), q),
        handle.title_id matches TitleId::Steam(id) ==> (r@.len() > 0 ==> exists|p: u32|
            resolves_to(snapshot@, id, p)),
        handle.title_id matches TitleId::Exe(path) ==> (r@.len() > 0 ==> exists|q: u32|
            named_pid(snapshot@, basename_of(path@), q)),
{
    match &handle.title_id {
        TitleId::Steam(id) => {
            match resolve_supervisor(snapshot, *id) {
                Some(p) => process_tree(snapshot, p),
                None => Vec::new(),
            }
        },
        TitleId::Exe(path) => {
            let bn = basename(path.as_str());
            let n = snapshot.len();
            let mut out: Vec<u32> = Vec::new();
            let mut i: usize = 0;
            while i < n
                invariant
                    n == snapshot@.len(),
                    i <= n,
                    bn@ == basename_of(path@),
                    forall|q: u32| #[trigger] out@.contains(q) <==> named_pid_upto(
                        snapshot@,
                        basename_of(path@),
                        q,
                        i as int,
                    ),
                decreases n - i,
            {
                let rec = &snapshot[i];
                if str_eq(rec.name.as_str(), bn.as_str()) && !contains_u32(&out, rec.pid) {
                    out.push(rec.pid);
                }
                proof {
                    let r0 = snapshot@[i as int];
                    assert(forall|q: u32| #[trigger] named_pid_upto(
                        snapshot@,
                        basename_of(path@),
                        q,
                        i + 1,
                    ) <==> (named_pid_upto(snapshot@, basename_of(path@), q, i as int) || (r0.pid
                        == q && r0.name@ == basename_of(path@))));
                }
                i += 1;
            }
            proof {
                assert(out@.len() > 0 ==> out@.contains(out@[0]));
                assert(out@.len() > 0 ==> named_pid(snapshot@, basename_of(path@), out@[0]));
            }
            out
        },
    }
}

/// Sends the unconditional terminate signal to one pid.
///
/// Relies on sysinfo: `System::new_all` loads the process table,
/// `System::process` looks the pid up, `Process::kill` sends the
/// non-catchable kill signal.  `None` means the pid has no entry (the
/// process is already gone); `Some(sent)` reports whether the signal was
/// sent successfully — not that the process has exited.  What is live
/// depends on the machine, so nothing more is promised of the outcome.
#[verifier::external_body]
fn send_kill_signal(pid: u32) -> (r: Option<bool>) {
    let sys = sysinfo::System::new_all();
    match sys.process(sysinfo::Pid::from_u32(pid)) {
        Some(p) => Some(p.kill()),
        None => None,
    }
}

/// Kills the whole process tree of a tracked title: re-resolves the
/// supervisor from a fresh snapshot (stale pids are never trusted),
/// computes the tree, signals each member individually, and hands the
/// snapshot back together with the outcome.  A pid that has no
/// process-table entry counts as already satisfied, so terminating a tree
/// that has already exited returns `Ok`: whenever nothing resolves for the
/// handle's title in the scanned snapshot — no marker-bearing supervisor
/// tree, no process named like the tracked executable — there is nothing
/// to signal and no error.  `SignalFailed` reports that some live member
/// refused the signal even on the best-effort second pass.  Whatever the
/// outcome, the call returns — the caller always resets the session to
/// `NotStarted` afterwards.
pub fn terminate(handle: &ProcessHandle) -> (r: (Vec<ProcRecord>, Result<(), TerminationError>))
    ensures
        (handle.title_id matches TitleId::Steam(id) && (forall|p: u32|
            !resolves_to(r.0@, id, p))) ==> r.1 is Ok,
        (handle.title_id matches TitleId::Exe(path) && (forall|q: u32|
            !named_pid(r.0@, basename_of(path@), q))) ==> r.1 is Ok,
{
    let snapshot = scan_process_table();
    let pids = kill_set(&snapshot, handle);
    let failed = signal_each(&pids);
    if failed.len() == 0 {
        return (snapshot, Ok(()));
    }
    // best-effort second pass over the members that refused the signal
    let still_failed = signal_each(&failed);
    let outcome: Result<(), TerminationError> = if still_failed.len() == 0 {
        Ok(())
    } else {
        Err(TerminationError::SignalFailed)
    };
    let result = (snapshot, outcome);
    proof {
        assert(pids@.len() > 0);
        assert(result.0@ == snapshot@);
        assert(handle.title_id matches TitleId::Steam(id) ==> exists|p: u32|
            resolves_to(snapshot@, id, p));
        assert(handle.title_id matches TitleId::Exe(path) ==> exists|q: u32|
            named_pid(snapshot@, basename_of(path@), q));
        assert(handle.title_id matches TitleId::Steam(id) ==> exists|p: u32|
            resolves_to(result.0@, id, p));
        assert(handle.title_id matches TitleId::Exe(path) ==> exists|q: u32|
            named_pid(result.0@, basename_of(path@), q));
    }
    result
}

/// Signals every pid of the set once and reports the members whose entry
/// was still live but refused the signal; a pid with no entry counts as
/// already satisfied.  In particular, an empty set has nothing to signal
/// and reports no failure.
fn signal_each(pids: &Vec<u32>) -> (failed: Vec<u32>)
    ensures
        failed@.len() <= pids@.len(),
        forall|q: u32| #[trigger] failed@.contains(q) ==> pids@.contains(q),
{
    let mut failed: Vec<u32> = Vec::new();
    let n = pids.len();
    let mut i: usize = 0;
    while i < n
        invariant
            n == pids@.len(),
            i <= n,
            failed@.len() <= i,
            forall|q: u32| #[trigger] failed@.contains(q) ==> pids@.contains(q),
        decreases n - i,
    {
        match send_kill_signal(pids[i]) {
            Some(sent) => {
                if !sent {
                    failed.push(pids[i]);
                    proof {
                        assert(pids@.contains(pids@[i as int]));
                    }
                }
            },
            None => {},
        }
        i += 1;
    }
    failed
}

} // verus!
