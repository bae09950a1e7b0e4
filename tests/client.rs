use drops_client::api::{check_games_status, check_server_page, contains_text, login_outcome};
use drops_client::config::{ClientConfig, DropsAccountConfig, Game, Release, ReleaseState, SessionToken};
use drops_client::decimal::{decimal_text, parse_decimal};
use drops_client::errors::{FetchGamesError, LoginError};
use drops_client::launch::{handle_args_game_running, RunFromArgsIssue};
use drops_client::session::{initial_screen, Screen, WizardMessageHandler};
use drops_client::text::text_eq;
use drops_client::utils::{default_platform, newest_release_by_state};

fn rel(channel: &str, version: &str, state: ReleaseState, date: i64) -> Release {
    Release {
        channel_name: channel.to_string(),
        version: version.to_string(),
        description: String::new(),
        state,
        release_date: date,
        executable_path: "run".to_string(),
        size_bytes: 1,
    }
}

fn game(id: &str, selected: Option<&str>, releases: Vec<Release>) -> Game {
    Game {
        name: format!("{} name", id),
        name_id: id.to_string(),
        description: String::new(),
        author: String::new(),
        orphaned: false,
        selected_channel: selected.map(|s| s.to_string()),
        releases,
    }
}

#[test]
fn login_errors_from_status() {
    assert_eq!(LoginError::from_status(Some(401)), LoginError::BadCredentials);
    assert_eq!(LoginError::from_status(Some(404)), LoginError::NotFound);
    assert_eq!(LoginError::from_status(Some(500)), LoginError::APIError);
    assert_eq!(LoginError::from_status(None), LoginError::Unreachable);
}

#[test]
fn fetch_errors_from_status() {
    assert!(matches!(FetchGamesError::from_status(Some(401), "x".to_string()), FetchGamesError::BadCredentials));
    assert!(matches!(FetchGamesError::from_status(Some(404), "x".to_string()), FetchGamesError::NotFound));
    assert!(matches!(FetchGamesError::from_status(Some(500), "code: 500".to_string()), FetchGamesError::APIError(m) if m == "code: 500"));
    assert!(matches!(FetchGamesError::from_status(None, "down".to_string()), FetchGamesError::Unreachable(m) if m == "down"));
    assert!(FetchGamesError::NeedRelogin.needs_relogin());
    assert!(FetchGamesError::BadCredentials.needs_relogin());
    assert!(!FetchGamesError::NotFound.needs_relogin());
}

#[test]
fn login_outcomes() {
    assert_eq!(login_outcome(200, Some("sid=1".to_string())).unwrap().0, "sid=1");
    assert!(matches!(login_outcome(200, None), Err(LoginError::MissingSessionToken)));
    assert!(matches!(login_outcome(401, None), Err(LoginError::BadCredentials)));
    assert!(matches!(login_outcome(500, Some("x".to_string())), Err(LoginError::APIError)));
    assert!(matches!(check_games_status(302), Err(FetchGamesError::NeedRelogin)));
    assert!(check_games_status(200).is_ok());
}

#[test]
fn server_page_check() {
    assert!(check_server_page("<title>\u{1F4A7} drops</title>").is_ok());
    assert_eq!(check_server_page("<title>other</title>"), Err("not a drops server".to_string()));
    assert!(contains_text("abcabd", "abd"));
    assert!(!contains_text("abcab", "abd"));
    assert!(contains_text("abc", ""));
    assert!(!contains_text("", "a"));
}

#[test]
fn newest_release_selection() {
    let rs = vec![
        rel("stable", "1", ReleaseState::Installed, 10),
        rel("stable", "2", ReleaseState::NotInstalled, 20),
        rel("beta", "3", ReleaseState::Installed, 30),
        rel("stable", "2b", ReleaseState::NotInstalled, 20),
    ];
    assert_eq!(newest_release_by_state(&rs, None, None).unwrap().version, "3");
    assert_eq!(newest_release_by_state(&rs, Some("stable"), None).unwrap().version, "2b");
    assert_eq!(newest_release_by_state(&rs, Some("stable"), Some(ReleaseState::Installed)).unwrap().version, "1");
    assert!(newest_release_by_state(&rs, Some("alpha"), None).is_none());
    assert!(newest_release_by_state(&[], None, None).is_none());
}

#[test]
fn run_from_args_plans() {
    let games = vec![
        game("up", Some("stable"), vec![rel("stable", "1", ReleaseState::Installed, 1), rel("stable", "2", ReleaseState::NotInstalled, 2)]),
        game("ok", None, vec![rel("beta", "5", ReleaseState::Installed, 5)]),
        game("none", None, vec![rel("beta", "5", ReleaseState::NotInstalled, 5)]),
        game("chan", Some("stable"), vec![rel("beta", "5", ReleaseState::Installed, 5)]),
    ];
    match handle_args_game_running(&games, "up") {
        (RunFromArgsIssue::FoundUpdate(g, latest, installed), ch) => {
            assert_eq!(g.name_id, "up");
            assert_eq!(latest.version, "2");
            assert_eq!(installed.version, "1");
            assert_eq!(ch.as_deref(), Some("stable"));
        }
        _ => panic!("expected an update"),
    }
    match handle_args_game_running(&games, "ok") {
        (RunFromArgsIssue::CanPlay(r), ch) => {
            assert_eq!(r.version, "5");
            assert_eq!(ch.as_deref(), Some("beta"));
        }
        _ => panic!("expected a release to run"),
    }
    match handle_args_game_running(&games, "none") {
        (RunFromArgsIssue::Error(m), None) => assert_eq!(m, "Found game none name, but its not installed"),
        _ => panic!("expected an error"),
    }
    match handle_args_game_running(&games, "chan") {
        (RunFromArgsIssue::Error(m), _) => assert_eq!(m, "Found no installed releases for game chan name, download one"),
        _ => panic!("expected an error"),
    }
    match handle_args_game_running(&games, "missing") {
        (RunFromArgsIssue::Error(m), None) => assert_eq!(m, "Invalid game missing, but its not installed"),
        _ => panic!("expected an error"),
    }
}

#[test]
fn start_screen() {
    let mut c = ClientConfig { active_account: 3, accounts: vec![], is_active: false };
    assert!(matches!(initial_screen(&c), Screen::Wizard));
    let w = WizardMessageHandler {
        has_valid_host: true,
        games_dir_input: "/g".to_string(),
        has_valid_games_dir: true,
        drops_url_input: "http://d".to_string(),
        is_checking_host_reachable: false,
        host_error: String::new(),
    };
    w.finish(&mut c, 3);
    assert!(c.is_active);
    assert_eq!(c.get_drops_url(), "http://d");
    assert_eq!(c.get_games_dir(), "/g");
    assert!(matches!(initial_screen(&c), Screen::Login));
    c.set_session_token(SessionToken("s".to_string()));
    assert!(matches!(initial_screen(&c), Screen::Main));
    let _ = DropsAccountConfig::create_new_release;
}

#[test]
fn wizard_form() {
    let mut w = WizardMessageHandler::new();
    assert!(!w.can_test());
    w.url_changed("http://d".to_string());
    assert!(w.can_test());
    w.host_checked(Err("no".to_string()));
    assert_eq!(w.host_error, "no");
    assert!(!w.has_valid_host);
    w.host_checked(Ok(()));
    assert!(w.has_valid_host);
    assert!(w.host_error.is_empty());
    w.games_dir_input = "/g".to_string();
    w.clear_input();
    assert!(w.drops_url_input.is_empty());
    assert!(w.games_dir_input.is_empty());
}

#[test]
fn decimal_text_and_parse() {
    assert_eq!(decimal_text(0), "0");
    assert_eq!(decimal_text(1203), "1203");
    assert_eq!(decimal_text(u64::MAX), u64::MAX.to_string());
    assert_eq!(parse_decimal("1203", 5000), Some(1203));
    assert_eq!(parse_decimal("1203", 1000), None);
    assert_eq!(parse_decimal("", 10), None);
    assert_eq!(parse_decimal("-1", 10), None);
    assert_eq!(parse_decimal("99999999999999999999999", u64::MAX), None);
}

#[test]
fn text_equality_and_platform() {
    assert!(text_eq("abc", "abc"));
    assert!(!text_eq("abc", "abd"));
    assert!(!text_eq("abc", "ab"));
    let p = default_platform();
    assert!(p == "linux" || p == "windows");
}
