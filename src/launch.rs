use vstd::prelude::*;

use crate::config::{first_game, games_view, has_game, Game, GameView, Release, ReleaseState};
use crate::utils::{newest_of, newest_release_by_state};

verus! {

/// What to do about a game requested on the command line.
#[derive(Debug, Clone)]
pub enum RunFromArgsIssue {
    /// No game was requested.
    NotSet,
    /// The newest installed release of the game's channel is also its newest
    /// release: run it.
    CanPlay(Release),
    /// The game cannot be run; the text says why.
    Error(String),
    /// A newer release than the installed one exists: the game, the newest
    /// release and the newest installed release.
    FoundUpdate(Game, Release, Release),
}

/// The channel to run a game on: the one chosen for it, else that of its
/// newest installed release.
pub open spec fn run_channel(g: GameView) -> Option<Seq<char>> {
    match g.selected_channel {
        Some(c) => Some(c@),
        None => match newest_of(g.releases, None, Some(ReleaseState::Installed)) {
            Some(r) => Some(r.channel_name@),
            None => None,
        },
    }
}

/// The decision for a request to run the game `id` from the games `gs`, with
/// the channel it settled on, where it settled on one.
pub open spec fn run_plan_holds(gs: Seq<GameView>, id: Seq<char>, r: RunFromArgsIssue, channel: Option<String>) -> bool {
    &&& !has_game(gs, id) ==> channel is None && (r matches RunFromArgsIssue::Error(m) && m@ == "Invalid game "@ + id
        + ", but its not installed"@)
    &&& forall|g: int| #[trigger] first_game(gs, id, g) ==> {
        let game = gs[g];
        let ch = run_channel(game);
        let installed = newest_of(game.releases, ch, Some(ReleaseState::Installed));
        let latest = newest_of(game.releases, ch, None);
        &&& ch is None ==> channel is None && (r matches RunFromArgsIssue::Error(m) && m@ == "Found game "@
            + game.name@ + ", but its not installed"@)
        &&& ch is Some ==> (channel matches Some(cs) && Some(cs@) == ch)
        &&& (ch is Some && installed is None) ==> (r matches RunFromArgsIssue::Error(m) && m@
            == "Found no installed releases for game "@ + game.name@ + ", download one"@)
        &&& (ch is Some && installed is Some) ==> match latest {
            Some(l) => if l.version@ == installed.unwrap().version@ {
                r == RunFromArgsIssue::CanPlay(installed.unwrap())
            } else {
                (r matches RunFromArgsIssue::FoundUpdate(g2, l2, i2) && g2@ == game && l2 == l && i2
                    == installed.unwrap())
            },
            None => r == RunFromArgsIssue::CanPlay(installed.unwrap()),
        }
    }
}

/// Decides how to honour a request to run the game `game_name_id`: which
/// channel to use, and whether its newest installed release can run, a
/// newer one is available, or it cannot run at all.
pub fn handle_args_game_running(games: &Vec<Game>, game_name_id: &str) -> (r: (RunFromArgsIssue, Option<String>))
    ensures
        run_plan_holds(games_view(games@), game_name_id@, r.0, r.1),
{
    let ghost gv = games_view(games@);
    let mut g: usize = 0;
    while g < games.len() && !crate::text::text_eq(games[g].name_id.as_str(), game_name_id)
        invariant
            g <= games@.len(),
            gv == games_view(games@),
            forall|m: int| 0 <= m < g ==> (#[trigger] gv[m]).name_id@ != game_name_id@,
        decreases games@.len() - g,
    {
        g = g + 1;
    }
    if g == games.len() {
        let mut m = String::from_str("Invalid game ");
        m.append(game_name_id);
        m.append(", but its not installed");
        return (RunFromArgsIssue::Error(m), None);
    }
    let game = &games[g];
    proof {
        assert(first_game(gv, game_name_id@, g as int));
        assert forall|h: int| #[trigger] first_game(gv, game_name_id@, h) implies h == g by {
            if h < g {
            } else if h > g {
                assert(gv[g as int].name_id@ == game_name_id@);
            }
        }
        assert(gv[g as int] == game@);
    }
    let channel = match &game.selected_channel {
        Some(c) => c.clone(),
        None => {
            match newest_release_by_state(games[g].releases.as_slice(), None, Some(ReleaseState::Installed)) {
                Some(r) => r.channel_name,
                None => {
                    let mut m = String::from_str("Found game ");
                    m.append(game.name.as_str());
                    m.append(", but its not installed");
                    return (RunFromArgsIssue::Error(m), None);
                },
            }
        },
    };
    assert(run_channel(game@) == Some(channel@));
    let installed = match newest_release_by_state(game.releases.as_slice(), Some(channel.as_str()), Some(ReleaseState::Installed)) {
        Some(r) => r,
        None => {
            let mut m = String::from_str("Found no installed releases for game ");
            m.append(game.name.as_str());
            m.append(", download one");
            return (RunFromArgsIssue::Error(m), Some(channel));
        },
    };
    let issue = match newest_release_by_state(game.releases.as_slice(), Some(channel.as_str()), None) {
        None => RunFromArgsIssue::CanPlay(installed),
        Some(latest) => {
            if latest.version == installed.version {
                RunFromArgsIssue::CanPlay(installed)
            } else {
                RunFromArgsIssue::FoundUpdate(game.duplicate(), latest, installed)
            }
        },
    };
    (issue, Some(channel))
}

} // verus!
