use drops_client::catalog::{GameInfoResponse, GetGamesResponse};
use drops_client::session::{client_binary_name, ClientUpdateHandler, ClientUpdateState};
use drops_client::config::{refreshed_game, ClientConfig, DropsAccountConfig, Game, Release, ReleaseState, SessionToken};
use drops_client::games::{highest_installed_version, GamesMessageHandler};
use drops_client::shortcut::desktop_entry_text;
use drops_client::text::text_less;
use drops_client::utils::{get_config_file_path, get_lock_file_path};

fn rel(channel: &str, version: &str, state: ReleaseState) -> Release {
    Release {
        channel_name: channel.to_string(),
        version: version.to_string(),
        description: String::new(),
        state,
        release_date: 0,
        executable_path: "run".to_string(),
        size_bytes: 1,
    }
}

fn game(id: &str, selected: Option<&str>, releases: Vec<Release>) -> Game {
    Game {
        name: id.to_uppercase(),
        name_id: id.to_string(),
        description: String::new(),
        author: String::new(),
        orphaned: false,
        selected_channel: selected.map(|s| s.to_string()),
        releases,
    }
}

fn account(id: u128, url: &str) -> DropsAccountConfig {
    DropsAccountConfig {
        id,
        games_dir: "/g".to_string(),
        url: url.to_string(),
        username: String::new(),
        session_token: SessionToken(String::new()),
        games: vec![],
    }
}

#[test]
fn lexicographic_order() {
    assert!(text_less("1.10", "1.9"));
    assert!(text_less("1.0", "1.0.1"));
    assert!(!text_less("1.0.1", "1.0"));
    assert!(!text_less("abc", "abc"));
    assert!(text_less("", "a"));
}

#[test]
fn highest_installed_version_per_channel() {
    let rs = vec![
        rel("stable", "1.2", ReleaseState::Installed),
        rel("stable", "1.10", ReleaseState::Installed),
        rel("stable", "1.3", ReleaseState::NotInstalled),
        rel("beta", "2.0", ReleaseState::Installed),
    ];
    assert_eq!(highest_installed_version(&rs, "stable").as_deref(), Some("1.2"));
    assert_eq!(highest_installed_version(&rs, "beta").as_deref(), Some("2.0"));
    assert_eq!(highest_installed_version(&rs, "alpha"), None);
}

#[test]
fn selecting_a_game() {
    let h = GamesMessageHandler;
    let g = game("g", None, vec![rel("beta", "1", ReleaseState::Installed), rel("beta", "0", ReleaseState::Installed)]);
    assert_eq!(h.select_game(&g), (Some("beta".to_string()), Some("1".to_string())));
    let g = game("g", Some("stable"), vec![rel("beta", "1", ReleaseState::Installed)]);
    assert_eq!(h.select_game(&g), (Some("stable".to_string()), None));
    let g = game("g", None, vec![]);
    assert_eq!(h.select_game(&g), (None, None));
}

#[test]
fn accounts_are_patched_and_logged_in() {
    let mut c = ClientConfig { active_account: 2, accounts: vec![account(1, "a"), account(2, "b")], is_active: true };
    let mut b = account(2, "b2");
    b.games.push(game("x", None, vec![]));
    c.patch_account_and_save(b);
    assert_eq!(c.accounts[1].url, "b2");
    assert_eq!(c.accounts[1].games.len(), 1);
    assert_eq!(c.accounts[0].url, "a");
    c.apply_login("me", SessionToken("cookie".to_string()));
    assert_eq!(c.get_username(), "me");
    assert_eq!(c.get_session_token().0, "cookie");
    assert_eq!(c.accounts[0].username, "");
}

#[test]
fn selected_game_is_refreshed() {
    let games = vec![game("a", None, vec![]), game("b", None, vec![rel("s", "1", ReleaseState::Installed)])];
    let stale = game("b", None, vec![]);
    assert_eq!(refreshed_game(&games, &stale).unwrap().releases.len(), 1);
    assert!(refreshed_game(&games, &game("c", None, vec![])).is_none());
}

#[test]
fn desktop_entry() {
    assert_eq!(
        desktop_entry_text("My Game", "my-game"),
        "[Desktop Entry]\nName=My Game\nComment=Play this game on drops\nExec=drops-client my-game\nTerminal=false\nType=Application\nCategories=Game;"
    );
}

#[test]
fn config_paths() {
    if let Some(p) = get_config_file_path() {
        assert!(p.ends_with("config.json"));
    }
    if let Some(p) = get_lock_file_path() {
        assert!(p.ends_with("drops.lock"));
    }
}

#[test]
fn client_update_states() {
    let mut h = ClientUpdateHandler::new();
    assert!(matches!(h.state, ClientUpdateState::HasUpdate));
    h.begin_update();
    assert!(matches!(h.state, ClientUpdateState::IsUpdating));
    h.update_finished(Err("disk full".to_string()));
    assert!(matches!(&h.state, ClientUpdateState::UpdateError(m) if m == "disk full"));
    h.update_finished(Ok(()));
    assert!(matches!(h.state, ClientUpdateState::Completed));
    assert_eq!(client_binary_name("windows"), "drops-client.exe");
    assert_eq!(client_binary_name("linux"), "drops-client");
}

#[test]
fn catalog_ids_are_checked() {
    let g = |id: &str| GameInfoResponse {
        name: String::new(),
        name_id: id.to_string(),
        description: String::new(),
        author: String::new(),
        default_channel: None,
        releases: vec![],
    };
    assert!(GetGamesResponse { games: vec![g("a"), g("b")] }.has_unique_ids());
    assert!(!GetGamesResponse { games: vec![g("a"), g("b"), g("a")] }.has_unique_ids());
    assert!(GetGamesResponse { games: vec![] }.has_unique_ids());
}

#[test]
fn directory_entries() {
    assert!(drops_client::archive::is_directory_entry("bin/"));
    assert!(!drops_client::archive::is_directory_entry("bin/game"));
    assert!(!drops_client::archive::is_directory_entry(""));
}

#[test]
fn platform_names() {
    assert_eq!(drops_client::utils::platform_name(true), "windows");
    assert_eq!(drops_client::utils::platform_name(false), "linux");
}
