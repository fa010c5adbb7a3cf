use oxr_launcher_core::catalog::{get_installed_steam_games, Game, Kind};
use oxr_launcher_core::state::LaunchAction;

#[test]
fn new_steam_fields() {
    let g = Game::new_steam(620980, "Beat Saber".to_string());
    assert_eq!(g.name.as_str(), "Beat Saber");
    assert!(matches!(g.kind, Kind::STEAM));
    assert_eq!(g.steamid, Some(620980));
    assert_eq!(g.path, None);
}

#[test]
fn new_non_steam_fields() {
    let g = Game::new("Doom".to_string(), "/opt/doom/doom".to_string());
    assert_eq!(g.name.as_str(), "Doom");
    assert!(matches!(g.kind, Kind::NONSTEAM));
    assert_eq!(g.steamid, None);
    assert_eq!(g.path, Some("/opt/doom/doom".to_string()));
}

#[test]
fn run_steam_opens_vr_url() {
    let g = Game::new_steam(620980, "Beat Saber".to_string());
    assert_eq!(g.run(), LaunchAction::OpenUrl("steam://launch/620980/vr".to_string()));
}

#[test]
fn run_non_steam_spawns_path() {
    let g = Game::new("Doom".to_string(), "/opt/doom/doom".to_string());
    assert_eq!(g.run(), LaunchAction::Spawn("/opt/doom/doom".to_string()));
}

#[test]
fn catalogue_filter_drops_tooling() {
    let entries: Vec<(u32, String)> = vec![
        (620980, "Beat Saber".to_string()),
        (2348590, "Proton 8.0".to_string()),
        (228980, "Steamworks Common Redistributables".to_string()),
        (250820, "SteamVR".to_string()),
        (1628350, "Steam Linux Runtime - Sniper".to_string()),
        (546560, "Half-Life: Alyx".to_string()),
    ];
    let games = get_installed_steam_games(entries);
    assert_eq!(games.len(), 2);
    assert_eq!(games[0].steamid, Some(620980));
    assert_eq!(games[0].name.as_str(), "Beat Saber");
    assert_eq!(games[1].steamid, Some(546560));
    assert_eq!(games[1].name.as_str(), "Half-Life: Alyx");
}

#[test]
fn catalogue_filter_keeps_all_plain_names() {
    let entries: Vec<(u32, String)> = vec![(1, "A".to_string()), (2, "B".to_string())];
    let games = get_installed_steam_games(entries);
    assert_eq!(games.len(), 2);
    assert!(games.iter().all(|g| matches!(g.kind, Kind::STEAM)));
}
