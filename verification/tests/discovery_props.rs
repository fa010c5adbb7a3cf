use oxr_launcher_core::process_table::{contains_u32, pid_alive, process_tree, ProcRecord};
use oxr_launcher_core::state::{DiscoveryError, ProcessHandle, TitleId};
use oxr_launcher_core::terminate::{kill_set, terminate};
use oxr_launcher_core::tracker::{resolve_supervisor, scan_for_title};

fn rec(pid: u32, parent: Option<u32>, name: &str, cmd: &[&str], environ: &[&str]) -> ProcRecord {
    ProcRecord {
        pid,
        parent_pid: parent,
        name: name.to_string(),
        cmd: cmd.iter().map(|s| s.to_string()).collect(),
        environ: environ.iter().map(|s| s.to_string()).collect(),
    }
}

/// Two concurrent sessions: two same-named supervisors, each with a
/// compatibility-layer child carrying its own title marker.
fn two_sessions() -> Vec<ProcRecord> {
    vec![
        rec(1, None, "systemd", &[], &[]),
        rec(
            100,
            Some(1),
            "reaper",
            &["/data/steamapps/common/BeatSaber/start", "SteamLaunch"],
            &[],
        ),
        rec(110, Some(100), "pressure-vessel-adverb", &[], &["SteamAppId=620980", "HOME=/home/u"]),
        rec(111, Some(110), "wine64", &[], &[]),
        rec(
            200,
            Some(1),
            "reaper",
            &["/data/steamapps/common/Dota2/start", "SteamLaunch"],
            &[],
        ),
        rec(210, Some(200), "pressure-vessel-adverb", &[], &["SteamAppId=570"]),
        rec(211, Some(210), "dota2", &[], &[]),
    ]
}

#[test]
fn resolves_to_marker_matching_supervisor() {
    let snap = two_sessions();
    // title 620980 resolves to the supervisor whose tree carries its marker,
    // not to the other same-named candidate
    assert_eq!(resolve_supervisor(&snap, 620980), Some(100));
    assert_eq!(resolve_supervisor(&snap, 570), Some(200));
}

#[test]
fn resolves_none_for_unknown_title() {
    let snap = two_sessions();
    assert_eq!(resolve_supervisor(&snap, 999999), None);
}

#[test]
fn candidate_needs_common_path_without_entry_point() {
    let snap = vec![
        rec(100, Some(1), "reaper", &["/steamapps/common/G/entry-point-wrapper"], &[]),
        rec(110, Some(100), "pressure-vessel-adverb", &[], &["SteamAppId=620980"]),
    ];
    // the only same-named process carries the entry-point marker argument,
    // so it is no candidate
    assert_eq!(resolve_supervisor(&snap, 620980), None);
}

#[test]
fn marker_must_sit_inside_candidate_tree() {
    let snap = vec![
        rec(100, Some(1), "reaper", &["/steamapps/common/G/start"], &[]),
        // carries the right marker but is no descendant of the candidate
        rec(500, Some(1), "pressure-vessel-adverb", &[], &["SteamAppId=620980"]),
    ];
    assert_eq!(resolve_supervisor(&snap, 620980), None);
}

#[test]
fn reported_pid_is_live_in_snapshot() {
    let snap = two_sessions();
    let pid = resolve_supervisor(&snap, 620980).unwrap();
    assert!(pid_alive(&snap, pid));
}

#[test]
fn tree_collects_all_descendants() {
    let snap = two_sessions();
    let tree = process_tree(&snap, 100);
    assert!(contains_u32(&tree, 100));
    assert!(contains_u32(&tree, 110));
    assert!(contains_u32(&tree, 111));
    assert!(!contains_u32(&tree, 200));
    assert!(!contains_u32(&tree, 210));
    assert!(!contains_u32(&tree, 1));
}

#[test]
fn tree_of_leaf_is_single() {
    let snap = two_sessions();
    let tree = process_tree(&snap, 111);
    assert_eq!(tree, vec![111]);
}

#[test]
fn pid_alive_reports_presence() {
    let snap = two_sessions();
    assert!(pid_alive(&snap, 211));
    assert!(!pid_alive(&snap, 4242));
}

#[test]
fn kill_set_is_resolved_tree() {
    let snap = two_sessions();
    let h = ProcessHandle { pid: 100, title_id: TitleId::Steam(620980) };
    let ks = kill_set(&snap, &h);
    assert!(contains_u32(&ks, 100));
    assert!(contains_u32(&ks, 110));
    assert!(contains_u32(&ks, 111));
    assert!(!contains_u32(&ks, 200));
    assert_eq!(ks.len(), 3);
}

#[test]
fn kill_set_empty_when_tree_already_gone() {
    let snap = two_sessions();
    let h = ProcessHandle { pid: 100, title_id: TitleId::Steam(777777) };
    let ks = kill_set(&snap, &h);
    assert!(ks.is_empty());
}

#[test]
fn kill_set_for_direct_title_matches_executable_name() {
    let snap = vec![
        rec(300, Some(1), "doom", &[], &[]),
        rec(301, Some(1), "doom", &[], &[]),
        rec(302, Some(1), "emacs", &[], &[]),
    ];
    let h = ProcessHandle { pid: 300, title_id: TitleId::Exe("/opt/doom/doom".to_string()) };
    let ks = kill_set(&snap, &h);
    assert!(contains_u32(&ks, 300));
    assert!(contains_u32(&ks, 301));
    assert!(!contains_u32(&ks, 302));
    assert_eq!(ks.len(), 2);
}

#[test]
fn scan_for_absent_title_reports_no_candidate() {
    // a live scan of this machine: no supervisor carries this title's marker
    let (_snapshot, outcome) = scan_for_title(4_000_000_001);
    assert_eq!(outcome, Err(DiscoveryError::NoCandidate));
}

#[test]
fn terminate_direct_title_with_no_live_process_is_ok() {
    let h = ProcessHandle {
        pid: 4_000_000_000,
        title_id: TitleId::Exe("/nonexistent/dir/no-such-binary-zzz".to_string()),
    };
    let (_snapshot, outcome) = terminate(&h);
    assert_eq!(outcome, Ok(()));
}
