use drops_client::catalog::{GameInfoResponse, GetGamesResponse, ReleaseInfoResponse};
use drops_client::config::{
    ClientConfig, DropsAccountConfig, Game, InstallStateError, Release, ReleaseState, SessionToken,
};

fn info_release(channel: &str, version: &str, date: i64) -> ReleaseInfoResponse {
    ReleaseInfoResponse {
        channel: channel.to_string(),
        version: version.to_string(),
        description: format!("{} {}", channel, version),
        release_date: date,
        executable_path: "game.exe".to_string(),
        size_bytes: 1024,
    }
}

fn info_game(id: &str, releases: Vec<ReleaseInfoResponse>, default_channel: Option<&str>) -> GameInfoResponse {
    GameInfoResponse {
        name: format!("{} name", id),
        name_id: id.to_string(),
        description: format!("{} description", id),
        author: "author".to_string(),
        default_channel: default_channel.map(|c| c.to_string()),
        releases,
    }
}

fn local_release(channel: &str, version: &str, state: ReleaseState) -> Release {
    Release {
        channel_name: channel.to_string(),
        version: version.to_string(),
        description: "local".to_string(),
        state,
        release_date: 5,
        executable_path: "game.exe".to_string(),
        size_bytes: 10,
    }
}

fn local_game(id: &str, releases: Vec<Release>) -> Game {
    Game {
        name: "old name".to_string(),
        name_id: id.to_string(),
        description: "old description".to_string(),
        author: "old author".to_string(),
        orphaned: false,
        selected_channel: Some("stable".to_string()),
        releases,
    }
}

fn account(games: Vec<Game>) -> DropsAccountConfig {
    DropsAccountConfig {
        id: 7,
        games_dir: "/games".to_string(),
        url: "http://drops".to_string(),
        username: "user".to_string(),
        session_token: SessionToken("token".to_string()),
        games,
    }
}

#[test]
fn new_game_appears() {
    let mut a = account(vec![]);
    let catalog = GetGamesResponse { games: vec![info_game("g", vec![info_release("stable", "1.0.0", 1)], None)] };
    assert!(a.handle_game_response(catalog).is_ok());
    assert_eq!(a.games.len(), 1);
    let g = &a.games[0];
    assert_eq!(g.name_id, "g");
    assert!(!g.orphaned);
    assert_eq!(g.releases.len(), 1);
    assert_eq!(g.releases[0].channel_name, "stable");
    assert_eq!(g.releases[0].version, "1.0.0");
    assert_eq!(g.releases[0].state, ReleaseState::NotInstalled);
    assert_eq!(g.selected_channel.as_deref(), Some("stable"));
}

#[test]
fn new_game_takes_default_channel() {
    let mut a = account(vec![]);
    let catalog = GetGamesResponse {
        games: vec![
            info_game("g", vec![info_release("stable", "1.0.0", 1)], Some("beta")),
            info_game("h", vec![], None),
        ],
    };
    a.handle_game_response(catalog).unwrap();
    assert_eq!(a.games[0].selected_channel.as_deref(), Some("beta"));
    assert_eq!(a.games[1].selected_channel, None);
}

#[test]
fn release_update_preserves_install() {
    let mut a = account(vec![local_game("g", vec![local_release("stable", "1.0.0", ReleaseState::Installed)])]);
    let catalog = GetGamesResponse {
        games: vec![info_game(
            "g",
            vec![info_release("stable", "1.0.0", 1), info_release("stable", "1.1.0", 2)],
            None,
        )],
    };
    a.handle_game_response(catalog).unwrap();
    let g = &a.games[0];
    assert_eq!(g.releases.len(), 2);
    assert_eq!(g.releases[0].version, "1.1.0");
    assert_eq!(g.releases[0].state, ReleaseState::NotInstalled);
    assert_eq!(g.releases[1].version, "1.0.0");
    assert_eq!(g.releases[1].state, ReleaseState::Installed);
    assert_eq!(g.name, "g name");
    assert_eq!(g.description, "g description");
    assert_eq!(g.selected_channel.as_deref(), Some("stable"));
}

#[test]
fn merge_twice_adds_nothing_more() {
    let mut a = account(vec![
        local_game("g", vec![local_release("stable", "1.0.0", ReleaseState::Installed)]),
        local_game("gone", vec![local_release("stable", "0.1.0", ReleaseState::Installed)]),
    ]);
    let catalog = GetGamesResponse {
        games: vec![
            info_game("g", vec![info_release("stable", "1.1.0", 2)], None),
            info_game("n", vec![info_release("beta", "0.9", 3), info_release("beta", "1.0", 4)], None),
        ],
    };
    a.handle_game_response(catalog.clone()).unwrap();
    let once = a.clone();
    a.handle_game_response(catalog).unwrap();
    assert_eq!(a.games.len(), once.games.len());
    assert_eq!(a.games.len(), 3);
    for (x, y) in a.games.iter().zip(once.games.iter()) {
        assert_eq!(x.name_id, y.name_id);
        assert_eq!(x.orphaned, y.orphaned);
        assert_eq!(x.selected_channel, y.selected_channel);
        let xv: Vec<_> = x.releases.iter().map(|r| (r.version.clone(), r.state)).collect();
        let yv: Vec<_> = y.releases.iter().map(|r| (r.version.clone(), r.state)).collect();
        assert_eq!(xv, yv);
    }
}

#[test]
fn orphan_round_trip() {
    let mut a = account(vec![local_game("g", vec![local_release("stable", "1.0.0", ReleaseState::Installed)])]);
    a.handle_game_response(GetGamesResponse { games: vec![] }).unwrap();
    assert!(a.games[0].orphaned);
    assert_eq!(a.games[0].name, "old name");
    assert_eq!(a.games[0].releases.len(), 1);
    assert_eq!(a.games[0].releases[0].state, ReleaseState::Installed);

    let catalog = GetGamesResponse { games: vec![info_game("g", vec![info_release("stable", "2.0.0", 9)], None)] };
    a.handle_game_response(catalog).unwrap();
    let g = &a.games[0];
    assert!(!g.orphaned);
    assert_eq!(g.name, "g name");
    assert_eq!(g.releases.len(), 2);
    assert_eq!(g.releases[1].version, "1.0.0");
    assert_eq!(g.releases[1].state, ReleaseState::Installed);
}

#[test]
fn patch_of_unknown_game_fails() {
    let mut a = account(vec![local_game("g", vec![])]);
    let info = info_game("other", vec![], None);
    let r = a.patch_existing_game(local_game("other", vec![]), &info);
    assert!(r.is_err());
    assert_eq!(a.games.len(), 1);
    assert_eq!(a.games[0].name, "old name");
}

#[test]
fn install_state_is_recorded() {
    let mut a = account(vec![local_game("g", vec![
        local_release("stable", "1.0.0", ReleaseState::NotInstalled),
        local_release("beta", "1.0.0", ReleaseState::NotInstalled),
    ])]);
    assert!(a.update_install_state("g", "1.0.0", "beta", ReleaseState::Installed).is_ok());
    assert_eq!(a.games[0].releases[0].state, ReleaseState::NotInstalled);
    assert_eq!(a.games[0].releases[1].state, ReleaseState::Installed);
    assert!(matches!(
        a.update_install_state("x", "1.0.0", "beta", ReleaseState::Installed),
        Err(InstallStateError::GameNotFound(_))
    ));
    assert!(matches!(
        a.update_install_state("g", "2.0.0", "beta", ReleaseState::Installed),
        Err(InstallStateError::ReleaseNotFound { .. })
    ));
}

fn config() -> ClientConfig {
    let mut other = account(vec![]);
    other.id = 1;
    other.url = "http://other".to_string();
    ClientConfig {
        active_account: 7,
        accounts: vec![other, account(vec![local_game("g", vec![local_release("stable", "1.0.0", ReleaseState::NotInstalled)])])],
        is_active: true,
    }
}

#[test]
fn config_reads_the_active_account() {
    let mut c = config();
    assert!(c.is_consistent());
    assert_eq!(c.get_username(), "user");
    assert_eq!(c.get_games_dir(), "/games");
    assert_eq!(c.get_drops_url(), "http://drops");
    assert!(c.has_session_token());
    assert_eq!(c.get_session_token().0, "token");
    assert_eq!(c.get_account_games().len(), 1);
    assert_eq!(c.get_active_account().unwrap().id, 7);
    c.clear_session_token();
    assert!(!c.has_session_token());
    c.set_session_token(SessionToken("again".to_string()));
    assert_eq!(c.get_session_token().0, "again");
    c.set_username_and_save("other user");
    assert_eq!(c.get_username(), "other user");
    c.set_active_account_by_url("http://other".to_string());
    assert_eq!(c.active_account, 1);
    c.active_account = 99;
    assert!(c.get_active_account().is_none());
    assert!(!c.is_consistent());
}

#[test]
fn config_sync_and_install() {
    let mut c = config();
    let catalog = GetGamesResponse { games: vec![info_game("h", vec![info_release("stable", "3", 1)], None)] };
    c.sync_and_save(catalog).unwrap();
    let games = c.get_account_games();
    assert_eq!(games.len(), 2);
    assert!(games[0].orphaned);
    assert_eq!(games[1].name_id, "h");
    assert!(c.accounts[0].games.is_empty());
    c.update_install_state("h", "3", "stable", ReleaseState::Installed).unwrap();
    assert_eq!(c.get_account_games()[1].releases[0].state, ReleaseState::Installed);
}

#[test]
fn duplicate_games_are_inconsistent() {
    let a = account(vec![local_game("g", vec![]), local_game("g", vec![])]);
    assert!(!a.has_unique_game_ids());
    let b = account(vec![local_game("g", vec![]), local_game("h", vec![])]);
    assert!(b.has_unique_game_ids());
}

#[test]
fn new_release_record_copies_catalog() {
    let r = DropsAccountConfig::create_new_release(&info_release("beta", "4.2", 77));
    assert_eq!(r.channel_name, "beta");
    assert_eq!(r.version, "4.2");
    assert_eq!(r.description, "beta 4.2");
    assert_eq!(r.release_date, 77);
    assert_eq!(r.size_bytes, 1024);
    assert_eq!(r.state, ReleaseState::NotInstalled);
}
