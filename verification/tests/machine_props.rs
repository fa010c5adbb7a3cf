use oxr_launcher_core::catalog::Game;
use oxr_launcher_core::state::{
    launch_failure, LaunchAction, LaunchError, LauncherState, ProcessHandle, TitleId, TrackEvent,
};
use oxr_launcher_core::terminate::terminate;

fn beat_saber() -> Game {
    Game::new_steam(620980, "Beat Saber".to_string())
}

#[test]
fn dispatch_moves_to_starting_not_running() {
    let mut st = LauncherState::new();
    let r = st.dispatch(beat_saber());
    assert_eq!(r, Ok(LaunchAction::OpenUrl("steam://launch/620980/vr".to_string())));
    assert_eq!(st, LauncherState::Starting(TitleId::Steam(620980)));
}

#[test]
fn dispatch_direct_title_also_starts_in_starting() {
    let mut st = LauncherState::new();
    let g = Game::new("Doom".to_string(), "/opt/doom/doom".to_string());
    let r = st.dispatch(g);
    assert_eq!(r, Ok(LaunchAction::Spawn("/opt/doom/doom".to_string())));
    assert_eq!(st, LauncherState::Starting(TitleId::Exe("/opt/doom/doom".to_string())));
}

#[test]
fn second_dispatch_while_starting_is_rejected() {
    let mut st = LauncherState::new();
    let first = st.dispatch(beat_saber());
    assert!(first.is_ok());
    let second = st.dispatch(Game::new_steam(546560, "Half-Life: Alyx".to_string()));
    assert_eq!(second, Err(LaunchError::AlreadyActive));
    // the first session is unaffected
    assert_eq!(st, LauncherState::Starting(TitleId::Steam(620980)));
}

#[test]
fn second_dispatch_while_running_is_rejected() {
    let mut st = LauncherState::new();
    st.dispatch(beat_saber()).unwrap();
    st.set_running(ProcessHandle { pid: 4321, title_id: TitleId::Steam(620980) });
    let second = st.dispatch(Game::new_steam(546560, "Half-Life: Alyx".to_string()));
    assert_eq!(second, Err(LaunchError::AlreadyActive));
    assert_eq!(
        st,
        LauncherState::Running(ProcessHandle { pid: 4321, title_id: TitleId::Steam(620980) })
    );
}

#[test]
fn failed_spawn_reverts_to_not_started() {
    let mut st = LauncherState::new();
    let g = Game::new("Ghost".to_string(), "/nonexistent/path/to/game".to_string());
    let r = st.dispatch(g);
    let action = r.unwrap();
    assert!(matches!(action, LaunchAction::Spawn(_)));
    // the embedding loop fails to spawn the executable and reports it
    assert_eq!(launch_failure(&action), LaunchError::SpawnFailed);
    st.dispatch_failed();
    assert_eq!(st, LauncherState::NotStarted);
}

#[test]
fn failed_url_open_reports_handler_unavailable() {
    let mut st = LauncherState::new();
    let action = st.dispatch(beat_saber()).unwrap();
    assert_eq!(launch_failure(&action), LaunchError::HandlerUnavailable);
    st.dispatch_failed();
    assert_eq!(st, LauncherState::NotStarted);
}

#[test]
fn tracker_found_moves_starting_to_running() {
    let mut st = LauncherState::new();
    st.dispatch(beat_saber()).unwrap();
    let h = ProcessHandle { pid: 1111, title_id: TitleId::Steam(620980) };
    st.track_event(TrackEvent::Found(h.clone()));
    assert_eq!(st, LauncherState::Running(h));
}

#[test]
fn tracker_timeout_reverts_to_not_started() {
    let mut st = LauncherState::new();
    st.dispatch(beat_saber()).unwrap();
    st.track_event(TrackEvent::TimedOut);
    assert_eq!(st, LauncherState::NotStarted);
}

#[test]
fn late_found_event_is_ignored() {
    let mut st = LauncherState::new();
    let h = ProcessHandle { pid: 1111, title_id: TitleId::Steam(620980) };
    st.track_event(TrackEvent::Found(h));
    assert_eq!(st, LauncherState::NotStarted);
}

#[test]
fn kill_on_not_started_is_a_noop() {
    let mut st = LauncherState::new();
    let handed = st.kill_request();
    assert_eq!(handed, None);
    assert_eq!(st, LauncherState::NotStarted);
}

#[test]
fn kill_on_running_yields_not_started_and_hands_back_handle() {
    let mut st = LauncherState::new();
    st.dispatch(beat_saber()).unwrap();
    let h = ProcessHandle { pid: 2222, title_id: TitleId::Steam(620980) };
    st.set_running(h.clone());
    let handed = st.kill_request();
    assert_eq!(handed, Some(h));
    assert_eq!(st, LauncherState::NotStarted);
}

#[test]
fn kill_of_already_gone_tree_still_succeeds() {
    // the tracked tree has already exited: termination is idempotent and the
    // session still ends in NotStarted
    let mut st = LauncherState::new();
    st.dispatch(beat_saber()).unwrap();
    let h = ProcessHandle { pid: 4_000_000_000, title_id: TitleId::Steam(620980) };
    st.set_running(h);
    let handed = st.kill_request().unwrap();
    let (_snapshot, outcome) = terminate(&handed);
    assert_eq!(outcome, Ok(()));
    assert_eq!(st, LauncherState::NotStarted);
}

#[test]
fn liveness_dead_pid_ends_session() {
    let mut st = LauncherState::new();
    st.dispatch(beat_saber()).unwrap();
    st.set_running(ProcessHandle { pid: 3333, title_id: TitleId::Steam(620980) });
    st.liveness(true);
    assert!(matches!(st, LauncherState::Running(_)));
    st.liveness(false);
    assert_eq!(st, LauncherState::NotStarted);
}
