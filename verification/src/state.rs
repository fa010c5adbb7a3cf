//! The launch state machine and the types it moves: launch actions, process
//! handles, tracker events and the error taxonomy.
//!
//! The machine is driven only by the single-threaded UI loop; background
//! work reports back through events (see [`TrackEvent`]) that the loop feeds
//! into the transition methods here.

use vstd::prelude::*;
use vstd::string::StringExecFns;
use crate::strutil::{dec_of, u32_to_dec};
use crate::catalog::{Game, Kind};

verus! {

/// Identifies a title: indirect-launch titles by their numeric catalogue id,
/// direct-launch titles by the path of their executable.
#[derive(Debug, Clone, PartialEq)]
pub enum TitleId {
    Steam(u32),
    Exe(String),
}

/// A lookup key for the OS process found to be running a title.  The OS owns
/// the process; the handle is invalidated once the pid leaves the process
/// table, so every termination re-resolves it.
#[derive(Debug, Clone, PartialEq)]
pub struct ProcessHandle {
    pub pid: u32,
    pub title_id: TitleId,
}

/// The authoritative launch state that the UI observes.  Exactly one session
/// is live at a time.
#[derive(Debug, PartialEq)]
pub enum LauncherState {
    NotStarted,
    Starting(TitleId),
    Running(ProcessHandle),
}

/// The OS-level action a dispatch asks the embedding loop to perform:
/// open a handler URL, or spawn an executable directly.
#[derive(Debug, Clone, PartialEq)]
pub enum LaunchAction {
    OpenUrl(String),
    Spawn(String),
}

/// Why a dispatch did not start a title.
#[derive(Debug, Clone, PartialEq, Eq, Structural)]
pub enum LaunchError {
    /// The OS-level open of the handler URL could not be invoked.
    HandlerUnavailable,
    /// The direct spawn of the executable failed.
    SpawnFailed,
    /// A session is already `Starting` or `Running`; the request is rejected
    /// with no state change.
    AlreadyActive,
}

/// Why a single process-table scan did not yield a handle.
#[derive(Debug, Clone, PartialEq, Eq, Structural)]
pub enum DiscoveryError {
    /// No supervisor process with the title's marker was found in this scan.
    NoCandidate,
    /// The bounded number of scan attempts was exhausted.
    TimedOut,
}

/// Why a termination pass was not fully satisfied.
#[derive(Debug, Clone, PartialEq, Eq, Structural)]
pub enum TerminationError {
    /// The terminate signal failed on part of the resolved process set.
    SignalFailed,
}

/// What a background discovery task reports to the UI loop.
#[derive(Debug, Clone, PartialEq)]
pub enum TrackEvent {
    Found(ProcessHandle),
    TimedOut,
}

/// The handler URL that asks the external client to launch title `id` in
/// VR mode.
pub open spec fn launch_url_of(id: nat) -> Seq<char> {
    "steam://launch/"@ + dec_of(id) + "/vr"@
}

/// The handler URL that asks the external client to run title `id`.
pub open spec fn rungameid_url_of(id: nat) -> Seq<char> {
    "steam://rungameid/"@ + dec_of(id)
}

/// Builds the VR launch URL for an indirect-launch title.
pub fn launch_url(id: u32) -> (r: String)
    ensures
        r@ == launch_url_of(id as nat),
{
    let mut s = ("steam://launch/").to_owned();
    let d = u32_to_dec(id);
    s.append(d.as_str());
    s.append("/vr");
    s
}

/// Builds the plain run URL for an indirect-launch title.
pub fn rungameid_url(id: u32) -> (r: String)
    ensures
        r@ == rungameid_url_of(id as nat),
{
    let mut s = ("steam://rungameid/").to_owned();
    let d = u32_to_dec(id);
    s.append(d.as_str());
    s
}

/// The error a failed OS-level launch action reports: a handler URL that
/// could not be opened, or an executable that could not be spawned.
pub fn launch_failure(action: &LaunchAction) -> (e: LaunchError)
    ensures
        action is OpenUrl ==> e == LaunchError::HandlerUnavailable,
        action is Spawn ==> e == LaunchError::SpawnFailed,
{
    match action {
        LaunchAction::OpenUrl(_) => LaunchError::HandlerUnavailable,
        LaunchAction::Spawn(_) => LaunchError::SpawnFailed,
    }
}

/// `t` identifies the title `g`: by catalogue id for an indirect-launch
/// title, by executable path otherwise.
pub open spec fn title_of(g: Game, t: TitleId) -> bool {
    if g.is_steam() {
        t == TitleId::Steam(g.steamid.unwrap())
    } else {
        (t matches TitleId::Exe(p) && p == g.path.unwrap())
    }
}

/// `a` is the OS-level action that launches the title `g`.
pub open spec fn action_of(g: Game, a: LaunchAction) -> bool {
    if g.is_steam() {
        (a matches LaunchAction::OpenUrl(u) && u@ == launch_url_of(g.steamid.unwrap() as nat))
    } else {
        (a matches LaunchAction::Spawn(p) && p == g.path.unwrap())
    }
}

impl LauncherState {
    /// Initial state of a session.
    pub fn new() -> (r: LauncherState)
        ensures
            r is NotStarted,
    {
        LauncherState::NotStarted
    }

    /// Dispatches a launch request.  From `NotStarted` the session enters
    /// `Starting`, carrying the title's id, and the OS-level action that
    /// launches the title is handed back for the embedding loop to perform.
    /// From `Starting` or `Running` the request is rejected with
    /// `AlreadyActive` and the state is untouched.  Dispatch never enters
    /// `Running` by itself: a handle only arrives later, through
    /// [`Self::set_running`] or [`Self::track_event`].
    pub fn dispatch(&mut self, game: Game) -> (r: Result<LaunchAction, LaunchError>)
        requires
            game.wf(),
        ensures
            !(*old(self) is NotStarted) ==> *final(self) == *old(self) && r == Err::<
                LaunchAction,
                LaunchError,
            >(LaunchError::AlreadyActive),
            *old(self) is NotStarted ==> (*final(self) matches LauncherState::Starting(t)
                && title_of(game, t)) && (r matches Ok(a) && action_of(game, a)),
            *final(self) is Running ==> *final(self) == *old(self),
    {
        match self {
            LauncherState::NotStarted => {
                let tid: TitleId = match &game.kind {
                    Kind::STEAM => TitleId::Steam(game.steamid.unwrap()),
                    Kind::NONSTEAM => match &game.path {
                        Some(p) => TitleId::Exe(p.clone()),
                        None => {
                            proof {
                                assert(false);
                            }
                            TitleId::Exe(String::new())
                        },
                    },
                };
                let act = game.run();
                *self = LauncherState::Starting(tid);
                Ok(act)
            },
            _ => Err(LaunchError::AlreadyActive),
        }
    }

    /// Records the outcome of the OS-level launch action once the embedding
    /// loop has performed it and it failed: the session reverts.
    pub fn dispatch_failed(&mut self)
        ensures
            *final(self) is NotStarted,
    {
        *self = LauncherState::NotStarted;
    }

    /// Moves a `Starting` session to `Running` once a handle is known:
    /// either the immediately known pid of a direct spawn, or the handle a
    /// discovery scan reported.
    pub fn set_running(&mut self, handle: ProcessHandle)
        requires
            *old(self) is Starting,
        ensures
            (*final(self) matches LauncherState::Running(h) && h == handle),
    {
        *self = LauncherState::Running(handle);
    }

    /// Feeds one event drained from the discovery channel into the machine.
    /// A `Found` handle only takes effect while the session is still
    /// `Starting`; a timeout always reverts to `NotStarted`.
    pub fn track_event(&mut self, ev: TrackEvent)
        ensures
            ev matches TrackEvent::Found(h) ==> ((*old(self) is Starting ==> (*final(self)
                matches LauncherState::Running(g) && g == h)) && (!(*old(self) is Starting)
                ==> *final(self) == *old(self))),
            (ev is TimedOut) ==> *final(self) is NotStarted,
    {
        match ev {
            TrackEvent::Found(h) => {
                if self.starting_now() {
                    *self = LauncherState::Running(h);
                }
            },
            TrackEvent::TimedOut => {
                *self = LauncherState::NotStarted;
            },
        }
    }

    /// Whether the liveness poll should keep the session: `alive` reports
    /// whether the tracked pid is still in the process table.  A dead pid
    /// ends the session.
    pub fn liveness(&mut self, alive: bool)
        ensures
            alive ==> *final(self) == *old(self),
            (!alive && *old(self) is Running) ==> *final(self) is NotStarted,
            !(*old(self) is Running) ==> *final(self) == *old(self),
    {
        if !alive {
            if self.running_now() {
                *self = LauncherState::NotStarted;
            }
        }
    }

    /// A user-initiated kill.  The session always ends; when a handle was
    /// being tracked it is handed back so the termination engine can resolve
    /// and kill the process tree.  On `NotStarted` this is a no-op.
    pub fn kill_request(&mut self) -> (r: Option<ProcessHandle>)
        ensures
            *final(self) is NotStarted,
            *old(self) matches LauncherState::Running(h) ==> r == Some(h),
            !(*old(self) is Running) ==> r is None,
    {
        let mut prev = LauncherState::NotStarted;
        core::mem::swap(self, &mut prev);
        match prev {
            LauncherState::Running(h) => Some(h),
            _ => None,
        }
    }

    fn starting_now(&self) -> (r: bool)
        ensures
            r == (self is Starting),
    {
        match self {
            LauncherState::Starting(_) => true,
            _ => false,
        }
    }

    fn running_now(&self) -> (r: bool)
        ensures
            r == (self is Running),
    {
        match self {
            LauncherState::Running(_) => true,
            _ => false,
        }
    }
}

} // verus!
