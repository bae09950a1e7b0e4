use std::io::{Cursor, Write};

use drops_client::config::{ClientConfig, DropsAccountConfig, Game, Release, ReleaseState, SessionToken};
use drops_client::download::{
    progress_percent, Download, DownloadError, DownloadMessageHandler, DownloadProgress,
    DownloadRequest, DownloadState, DownloadTracker, InstalledRelease,
};

fn request(id: &str) -> DownloadRequest {
    DownloadRequest {
        name_id: id.to_string(),
        game_dir: "/games".to_string(),
        drops_url: "http://drops".to_string(),
        session_token: SessionToken("t".to_string()),
        version: "1.0.0".to_string(),
        channel_name: "stable".to_string(),
        size_bytes: 10,
    }
}

fn percent_of(p: &DownloadProgress) -> u128 {
    match p {
        DownloadProgress::Downloading { percent } => *percent,
        DownloadProgress::Finished { .. } => panic!("not a progress event"),
    }
}

fn zip_bytes() -> Vec<u8> {
    let mut w = zip::ZipWriter::new(Cursor::new(Vec::new()));
    let options = zip::write::SimpleFileOptions::default()
        .compression_method(zip::CompressionMethod::Stored);
    w.start_file("bin/game.sh", options).unwrap();
    w.write_all(b"echo hi").unwrap();
    w.finish().unwrap().into_inner()
}

#[test]
fn progress_is_non_decreasing_and_bounded() {
    let data = zip_bytes();
    let mut t = DownloadTracker::new(data.len() as u64);
    let mut seen = vec![percent_of(&t.started())];
    for chunk in data.chunks(7) {
        seen.push(percent_of(&t.receive_chunk(chunk)));
    }
    assert_eq!(seen[0], 0);
    for w in seen.windows(2) {
        assert!(w[0] <= w[1]);
    }
    assert_eq!(*seen.last().unwrap(), 100);
    assert_eq!(t.buffer, data);
    let archive = t.finish().unwrap();
    assert_eq!(archive.len(), 1);
}

#[test]
fn progress_formula() {
    assert_eq!(progress_percent(0, 200), 0);
    assert_eq!(progress_percent(50, 200), 25);
    assert_eq!(progress_percent(199, 200), 99);
    assert_eq!(progress_percent(300, 200), 150);
    assert_eq!(progress_percent(5, 0), 100);
    assert_eq!(progress_percent(u64::MAX, 1), 100 * u64::MAX as u128);
}

#[test]
fn empty_response_fails() {
    let t = DownloadTracker::new(100);
    assert!(matches!(t.finish(), Err(DownloadError::EmptyResponse)));
}

#[test]
fn install_failure_on_bad_archive() {
    let mut t = DownloadTracker::new(12);
    t.receive_chunk(b"not a zip at");
    let err = match t.finish() {
        Err(e) => e,
        Ok(_) => panic!("garbage parsed as an archive"),
    };
    assert!(matches!(err, DownloadError::ArchiveError(_)));

    let mut config = ClientConfig {
        active_account: 1,
        accounts: vec![DropsAccountConfig {
            id: 1,
            games_dir: "/games".to_string(),
            url: "http://drops".to_string(),
            username: "u".to_string(),
            session_token: SessionToken("t".to_string()),
            games: vec![Game {
                name: "G".to_string(),
                name_id: "g".to_string(),
                description: String::new(),
                author: String::new(),
                orphaned: false,
                selected_channel: None,
                releases: vec![Release {
                    channel_name: "stable".to_string(),
                    version: "1.0.0".to_string(),
                    description: String::new(),
                    state: ReleaseState::NotInstalled,
                    release_date: 0,
                    executable_path: "g".to_string(),
                    size_bytes: 12,
                }],
            }],
        }],
        is_active: true,
    };
    let mut h = DownloadMessageHandler::new();
    let req = DownloadRequest::build(&config.accounts[0].games[0].releases[0], &config.accounts[0].games[0], &config);
    assert!(h.start(&req));
    h.fail("g", err);
    assert!(matches!(h.downloads[0].state, DownloadState::Errored(DownloadError::ArchiveError(_))));
    assert_eq!(config.get_account_games()[0].releases[0].state, ReleaseState::NotInstalled);

    h.dismiss("g");
    assert!(h.downloads.is_empty());
    assert!(h.start(&req));
    let release = h.downloads[0].installed_release();
    h.finish("g", &release, &mut config).unwrap();
    assert!(h.downloads.is_empty());
    assert_eq!(config.get_account_games()[0].releases[0].state, ReleaseState::Installed);
}

#[test]
fn one_task_per_game() {
    let mut h = DownloadMessageHandler::new();
    assert!(h.start(&request("a")));
    assert!(!h.start(&request("a")));
    assert!(h.start(&request("b")));
    assert_eq!(h.downloads.len(), 2);
    assert!(h.is_downloading("a"));
    assert!(!h.is_downloading("c"));
    h.progress("b", 42);
    assert!(matches!(h.downloads[1].state, DownloadState::Downloading { progress_percentage: 42 }));
    assert!(matches!(h.downloads[0].state, DownloadState::Downloading { progress_percentage: 0 }));
    h.dismiss("a");
    assert_eq!(h.downloads.len(), 1);
    assert_eq!(h.downloads[0].game_name_id, "b");
}

#[test]
fn finish_of_unknown_release_still_drops_task() {
    let mut config = ClientConfig {
        active_account: 1,
        accounts: vec![DropsAccountConfig {
            id: 1,
            games_dir: String::new(),
            url: String::new(),
            username: String::new(),
            session_token: SessionToken(String::new()),
            games: vec![],
        }],
        is_active: true,
    };
    let mut h = DownloadMessageHandler::new();
    h.start(&request("a"));
    let release = InstalledRelease {
        game_name_id: "a".to_string(),
        version: "1.0.0".to_string(),
        channel_name: "stable".to_string(),
    };
    assert!(h.finish("a", &release, &mut config).is_err());
    assert!(h.downloads.is_empty());
}

#[test]
fn release_url_is_composed() {
    let d = Download::new(&request("game"));
    assert_eq!(d.release_url("linux"), "http://drops/releases/game/linux/stable/1.0.0");
    let r = d.installed_release();
    assert_eq!(r.game_name_id, "game");
    assert_eq!(r.version, "1.0.0");
    assert_eq!(r.channel_name, "stable");
}
