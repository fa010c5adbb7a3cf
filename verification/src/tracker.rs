//! Discovery of the process actually running an indirect-launch title.
//!
//! A dispatched launch is redirected through the OS URL handler into the
//! external client, which forks a supervisor ("reaper") process, which in
//! turn runs the title under a container/compatibility layer
//! ("pressure-vessel") carrying an environment marker equal to the title
//! id.  Discovery therefore scans the process table for supervisor
//! candidates and resolves the one whose process tree holds the marker for
//! the requested title — never an arbitrary first match.

use vstd::prelude::*;
use vstd::string::StringExecFns;
use crate::process_table::{scan_process_table, process_tree, contains_u32, ProcRecord, tree_set};
use crate::state::{DiscoveryError, ProcessHandle, TitleId};
use crate::strutil::{dec_of, is_substr, str_contains, str_eq, u32_to_dec};

verus! {

/// The environment marker that the compatibility layer carries for the
/// title with catalogue id `id`.
pub open spec fn marker_of(id: nat) -> Seq<char> {
    "SteamAppId="@ + dec_of(id)
}

/// Builds the environment marker for a title id.
pub fn steam_marker(id: u32) -> (r: String)
    ensures
        r@ == marker_of(id as nat),
{
    let mut s = ("SteamAppId=").to_owned();
    let d = u32_to_dec(id);
    s.append(d.as_str());
    s
}

/// A supervisor candidate: a process with the well-known supervisor name
/// whose command line points into a title's install location ("common"),
/// entry-point marker arguments excluded.
pub open spec fn is_candidate(r: ProcRecord) -> bool {
    r.name@ == "reaper"@ && exists|i: int|
        0 <= i < r.cmd@.len() && is_substr((#[trigger] r.cmd@[i])@, "common"@) && !is_substr(
            r.cmd@[i]@,
            "entry-point"@,
        )
}

/// The record is a compatibility-layer process carrying the environment
/// marker of title `id`.
pub open spec fn has_marker(r: ProcRecord, id: u32) -> bool {
    is_substr(r.name@, "pressure-vessel"@) && exists|i: int|
        0 <= i < r.environ@.len() && (#[trigger] r.environ@[i])@ == marker_of(id as nat)
}

/// Discovery resolves title `id` to pid `p` in snapshot `s`: `p` is the pid
/// of a supervisor candidate record, and the process tree rooted at `p`
/// holds a compatibility-layer process carrying the title's marker.
pub open spec fn resolves_to(s: Seq<ProcRecord>, id: u32, p: u32) -> bool {
    (exists|i: int| 0 <= i < s.len() && (#[trigger] s[i]).pid == p && is_candidate(s[i]))
        && (exists|j: int|
        0 <= j < s.len() && has_marker(#[trigger] s[j], id) && tree_set(s, p).contains(s[j].pid))
}

/// The candidate record at index `i` resolves title `id`.
spec fn hit_at(s: Seq<ProcRecord>, id: u32, i: int) -> bool {
    is_candidate(s[i]) && exists|j: int|
        0 <= j < s.len() && has_marker(#[trigger] s[j], id) && tree_set(s, s[i].pid).contains(
            s[j].pid,
        )
}

/// The executable counterpart of [`is_candidate`].
pub fn is_candidate_proc(r: &ProcRecord) -> (b: bool)
    ensures
        b == is_candidate(*r),
{
    if !str_eq(r.name.as_str(), "reaper") {
        return false;
    }
    let n = r.cmd.len();
    let mut i: usize = 0;
    while i < n
        invariant
            n == r.cmd@.len(),
            i <= n,
            r.name@ == "reaper"@,
            forall|k: int|
                0 <= k < i ==> !(is_substr((#[trigger] r.cmd@[k])@, "common"@) && !is_substr(
                    r.cmd@[k]@,
                    "entry-point"@,
                )),
        decreases n - i,
    {
        let arg = &r.cmd[i];
        if str_contains(arg.as_str(), "common") && !str_contains(arg.as_str(), "entry-point") {
            return true;
        }
        i += 1;
    }
    false
}

/// The executable counterpart of [`has_marker`].
pub fn proc_has_marker(r: &ProcRecord, id: u32) -> (b: bool)
    ensures
        b == has_marker(*r, id),
{
    if !str_contains(r.name.as_str(), "pressure-vessel") {
        return false;
    }
    let marker = steam_marker(id);
    let n = r.environ.len();
    let mut i: usize = 0;
    while i < n
        invariant
            n == r.environ@.len(),
            i <= n,
            marker@ == marker_of(id as nat),
            is_substr(r.name@, "pressure-vessel"@),
            forall|k: int| 0 <= k < i ==> (#[trigger] r.environ@[k])@ != marker_of(id as nat),
        decreases n - i,
    {
        if str_eq(r.environ[i].as_str(), marker.as_str()) {
            return true;
        }
        i += 1;
    }
    false
}

/// Resolves the supervisor pid running title `app_id` in the snapshot, by
/// the title's environment marker.  Returns a pid if and only if some
/// candidate's tree carries the marker; `None` means the title is not (or
/// no longer, or not yet) running in this snapshot.
pub fn resolve_supervisor(snapshot: &Vec<ProcRecord>, app_id: u32) -> (r: Option<u32>)
    ensures
        r matches Some(p) ==> resolves_to(snapshot@, app_id, p),
        r is None ==> forall|p: u32| !resolves_to(snapshot@, app_id, p),
{
    let n = snapshot.len();
    let mut i: usize = 0;
    while i < n
        invariant
            n == snapshot@.len(),
            i <= n,
            forall|ii: int| 0 <= ii < i ==> !hit_at(snapshot@, app_id, ii),
        decreases n - i,
    {
        if is_candidate_proc(&snapshot[i]) {
            let root = snapshot[i].pid;
            let tree = process_tree(snapshot, root);
            let mut j: usize = 0;
            while j < n
                invariant
                    n == snapshot@.len(),
                    i < n,
                    j <= n,
                    root == snapshot@[i as int].pid,
                    is_candidate(snapshot@[i as int]),
                    forall|p: u32| #[trigger] tree@.contains(p) <==> tree_set(
                        snapshot@,
                        root,
                    ).contains(p),
                    forall|jj: int|
                        0 <= jj < j ==> !(has_marker(#[trigger] snapshot@[jj], app_id) && tree_set(
                            snapshot@,
                            root,
                        ).contains(snapshot@[jj].pid)),
                decreases n - j,
            {
                if proc_has_marker(&snapshot[j], app_id) && contains_u32(&tree, snapshot[j].pid) {
                    proof {
                        assert((snapshot@[i as int]).pid == root && is_candidate(
                            snapshot@[i as int],
                        ));
                        assert(has_marker(snapshot@[j as int], app_id) && tree_set(
                            snapshot@,
                            root,
                        ).contains(snapshot@[j as int].pid));
                    }
                    return Some(root);
                }
                j += 1;
            }
        }
        i += 1;
    }
    proof {
        assert forall|p: u32| !resolves_to(snapshot@, app_id, p) by {
            if resolves_to(snapshot@, app_id, p) {
                let ii = choose|ii: int|
                    0 <= ii < snapshot@.len() && (#[trigger] snapshot@[ii]).pid == p
                        && is_candidate(snapshot@[ii]);
                assert(hit_at(snapshot@, app_id, ii));
            }
        }
    }
    None
}

/// A reported handle refers to a live entry: if discovery resolves title
/// `id` to pid `p` in snapshot `s`, then `p` is the pid of a record present
/// in `s` itself — never a pid absent from the scanned table.
pub proof fn lemma_found_pid_in_snapshot(s: Seq<ProcRecord>, id: u32, p: u32)
    requires
        resolves_to(s, id, p),
    ensures
        exists|i: int| 0 <= i < s.len() && (#[trigger] s[i]).pid == p,
{
}

/// Disambiguation among concurrent sessions: when `p1` is a candidate
/// supervisor whose tree carries the marker of title `id_a`, and no record
/// carrying that marker lies in the tree of `p2`, then tracking `id_a`
/// can resolve to `p1` and can never resolve to `p2` — never an arbitrary
/// same-named match.
pub proof fn lemma_disambiguation(s: Seq<ProcRecord>, id_a: u32, p1: u32, p2: u32)
    requires
        exists|i: int| 0 <= i < s.len() && (#[trigger] s[i]).pid == p1 && is_candidate(s[i]),
        exists|j: int|
            0 <= j < s.len() && has_marker(#[trigger] s[j], id_a) && tree_set(s, p1).contains(
                s[j].pid,
            ),
        forall|j: int|
            0 <= j < s.len() && has_marker(#[trigger] s[j], id_a) ==> !tree_set(s, p2).contains(
                s[j].pid,
            ),
    ensures
        resolves_to(s, id_a, p1),
        !resolves_to(s, id_a, p2),
{
}

/// One discovery scan for an indirect-launch title: snapshots the process
/// table, resolves the supervisor by the title's environment marker, and
/// hands back the snapshot together with the outcome.  What the scan
/// returned depends on the machine at that moment; whatever it held, a
/// reported handle carries the requested title's id and a pid that
/// resolves in that very snapshot — so the handle's process-table entry
/// exists at the moment of reporting (see
/// [`lemma_found_pid_in_snapshot`]) — and an error means no candidate's
/// tree carried the marker in it.
pub fn scan_for_title(app_id: u32) -> (r: (Vec<ProcRecord>, Result<ProcessHandle, DiscoveryError>))
    ensures
        r.1 matches Ok(h) ==> h.title_id == TitleId::Steam(app_id) && resolves_to(
            r.0@,
            app_id,
            h.pid,
        ),
        r.1 matches Err(e) ==> e == DiscoveryError::NoCandidate && (forall|p: u32|
            !resolves_to(r.0@, app_id, p)),
{
    let snap = scan_process_table();
    match resolve_supervisor(&snap, app_id) {
        Some(pid) => (snap, Ok(ProcessHandle { pid, title_id: TitleId::Steam(app_id) })),
        None => (snap, Err(DiscoveryError::NoCandidate)),
    }
}

} // verus!
