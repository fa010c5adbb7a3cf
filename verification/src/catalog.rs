//! Catalogued titles: what a launchable game is, how the catalogue listing
//! is filtered down to launchable titles, and the launch action each title
//! asks for.

use vstd::prelude::*;
use crate::state::{LaunchAction, launch_url, launch_url_of};
use crate::strutil::is_substr;

verus! {

/// How a title is launched: `STEAM` through the external client's URL
/// handler, `NONSTEAM` by spawning its executable directly.
#[derive(Debug, Clone, PartialEq, Eq, Structural)]
pub enum Kind {
    STEAM,
    NONSTEAM,
}

/// A process entry remembered by the UI layer.
#[allow(dead_code)]
#[derive(Clone)]
pub struct Overlay {
    pid: u32,
    name: String,
    executable: String,
}

/// A launchable title from the catalogue.  Immutable after catalogue load.
#[derive(Debug, Clone, PartialEq)]
pub struct Game {
    pub name: String,
    pub kind: Kind,
    pub steamid: Option<u32>,
    pub path: Option<String>,
}

impl Game {
    /// The title is launched through the external client.
    pub open spec fn is_steam(&self) -> bool {
        self.kind == Kind::STEAM
    }

    /// A title's id or path is present for its launch kind.
    pub open spec fn wf(&self) -> bool {
        match self.kind {
            Kind::STEAM => self.steamid is Some,
            Kind::NONSTEAM => self.path is Some,
        }
    }

    /// An indirect-launch title, identified by its catalogue id.
    pub fn new_steam(id: u32, name: String) -> (r: Self)
        ensures
            r.wf(),
            r.is_steam(),
            r.steamid == Some(id),
            r.name == name,
            r.path is None,
    {
        Self { name, kind: Kind::STEAM, steamid: Some(id), path: None }
    }

    /// A direct-launch title, identified by the path of its executable.
    pub fn new(name: String, path: String) -> (r: Self)
        ensures
            r.wf(),
            !r.is_steam(),
            r.steamid is None,
            r.name == name,
            r.path == Some(path),
    {
        Self { name, kind: Kind::NONSTEAM, steamid: None, path: Some(path) }
    }

    /// The OS-level action that launches this title: the VR launch URL for
    /// an indirect title, a direct spawn of the stored executable otherwise.
    pub fn run(self) -> (r: LaunchAction)
        requires
            self.wf(),
        ensures
            self.is_steam() ==> (r matches LaunchAction::OpenUrl(u) && u@ == launch_url_of(
                self.steamid.unwrap() as nat,
            )),
            !self.is_steam() ==> (r matches LaunchAction::Spawn(p) && p == self.path.unwrap()),
    {
        match self.kind {
            Kind::STEAM => {
                let id = self.steamid.unwrap();
                LaunchAction::OpenUrl(launch_url(id))
            },
            Kind::NONSTEAM => LaunchAction::Spawn(self.path.unwrap()),
        }
    }
}

/// Catalogue entries whose display name marks tooling rather than a game
/// (runtimes, compatibility layers, the VR client itself) are not shown.
pub open spec fn tooling_name(n: Seq<char>) -> bool {
    is_substr(n, "Steamworks"@) || is_substr(n, "Proton"@) || is_substr(n, "Linux Runtime"@)
        || is_substr(n, "SteamVR"@)
}

/// The catalogue entries kept by the filter, in order.
pub open spec fn spec_catalog(entries: Seq<(u32, String)>) -> Seq<(u32, String)>
    decreases entries.len(),
{
    if entries.len() == 0 {
        entries
    } else {
        let rest = spec_catalog(entries.drop_last());
        if tooling_name(entries.last().1@) {
            rest
        } else {
            rest.push(entries.last())
        }
    }
}

/// Turns the raw catalogue listing (id and display name of each installed
/// title) into the launchable titles the UI offers, dropping tooling
/// entries and keeping the listing's order.
pub fn get_installed_steam_games(entries: Vec<(u32, String)>) -> (r: Vec<Game>)
    ensures
        r@.len() == spec_catalog(entries@).len(),
        forall|k: int|
            0 <= k < r@.len() ==> (#[trigger] r@[k]).wf() && r@[k].is_steam() && r@[k].steamid
                == Some(spec_catalog(entries@)[k].0) && r@[k].name == spec_catalog(entries@)[k].1
                && r@[k].path is None,
{
    let mut out: Vec<Game> = Vec::new();
    let n = entries.len();
    let mut i: usize = 0;
    while i < n
        invariant
            n == entries@.len(),
            i <= n,
            out@.len() == spec_catalog(entries@.take(i as int)).len(),
            forall|k: int|
                0 <= k < out@.len() ==> (#[trigger] out@[k]).wf() && out@[k].is_steam()
                    && out@[k].steamid == Some(spec_catalog(entries@.take(i as int))[k].0)
                    && out@[k].name == spec_catalog(entries@.take(i as int))[k].1
                    && out@[k].path is None,
        decreases n - i,
    {
        proof {
            assert(entries@.take(i + 1).drop_last() =~= entries@.take(i as int));
            assert(entries@.take(i + 1).last() == entries@[i as int]);
        }
        let entry = &entries[i];
        let keep = !name_is_tooling(&entry.1);
        if keep {
            let g = Game::new_steam(entry.0, entry.1.clone());
            out.push(g);
        }
        i += 1;
    }
    proof {
        assert(entries@.take(n as int) =~= entries@);
    }
    out
}

/// The executable counterpart of [`tooling_name`].
pub fn name_is_tooling(n: &String) -> (r: bool)
    ensures
        r == tooling_name(n@),
{
    crate::strutil::str_contains(n.as_str(), "Steamworks") || crate::strutil::str_contains(
        n.as_str(),
        "Proton",
    ) || crate::strutil::str_contains(n.as_str(), "Linux Runtime") || crate::strutil::str_contains(
        n.as_str(),
        "SteamVR",
    )
}

} // verus!
