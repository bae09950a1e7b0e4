use vstd::prelude::*;

use crate::config::{Game, Release, ReleaseState};
use crate::text::{lemma_text_lt_asymmetric, lemma_text_lt_transitive, text_less, text_lt};

verus! {

/// Whether release `r` is installed on `channel`.
pub open spec fn installed_on(r: Release, channel: Seq<char>) -> bool {
    r.channel_name@ == channel && r.state == ReleaseState::Installed
}

/// `v` is the greatest version, in lexicographic order, of the releases of
/// `rs` installed on `channel`.
pub open spec fn is_highest_installed(rs: Seq<Release>, channel: Seq<char>, v: Seq<char>) -> bool {
    &&& exists|i: int| 0 <= i < rs.len() && installed_on(#[trigger] rs[i], channel) && rs[i].version@ == v
    &&& forall|j: int|
        0 <= j < rs.len() && installed_on(#[trigger] rs[j], channel) ==> !text_lt(v, rs[j].version@)
}

/// The channel a game opens on: the one chosen for it, else that of its
/// first release.
pub open spec fn opening_channel(g: Game) -> Option<String> {
    match g.selected_channel {
        Some(c) => Some(c),
        None => if g.releases@.len() > 0 {
            Some(g.releases@[0].channel_name)
        } else {
            None
        },
    }
}

/// The greatest version, in lexicographic order, installed on `channel`.
pub fn highest_installed_version(releases: &Vec<Release>, channel: &str) -> (r: Option<String>)
    ensures
        r is None <==> forall|j: int|
            0 <= j < releases@.len() ==> !installed_on(#[trigger] releases@[j], channel@),
        r matches Some(v) ==> is_highest_installed(releases@, channel@, v@),
{
    let ghost rs = releases@;
    let mut best: Option<usize> = None;
    let mut i: usize = 0;
    while i < releases.len()
        invariant
            rs == releases@,
            i <= rs.len(),
            match best {
                Some(b) => b < i && installed_on(rs[b as int], channel@) && forall|j: int|
                    0 <= j < i && installed_on(#[trigger] rs[j], channel@) ==> !text_lt(
                        rs[b as int].version@,
                        rs[j].version@,
                    ),
                None => forall|j: int| 0 <= j < i ==> !installed_on(#[trigger] rs[j], channel@),
            },
        decreases rs.len() - i,
    {
        let r = &releases[i];
        if crate::text::text_eq(r.channel_name.as_str(), channel) && r.state == ReleaseState::Installed {
            match best {
                None => {
                    best = Some(i);
                    proof {
                        if text_lt(rs[i as int].version@, rs[i as int].version@) {
                            lemma_text_lt_asymmetric(rs[i as int].version@, rs[i as int].version@);
                        }
                    }
                },
                Some(b) => {
                    if text_less(releases[b].version.as_str(), r.version.as_str()) {
                        proof {
                            let vb = rs[b as int].version@;
                            let vi = rs[i as int].version@;
                            lemma_text_lt_asymmetric(vb, vi);
                            assert forall|j: int|
                                0 <= j < i + 1 && installed_on(#[trigger] rs[j], channel@) implies !text_lt(
                                vi,
                                rs[j].version@,
                            ) by {
                                if j < i && text_lt(vi, rs[j].version@) {
                                    lemma_text_lt_transitive(vb, vi, rs[j].version@);
                                }
                            }
                        }
                        best = Some(i);
                    }
                },
            }
        }
        i = i + 1;
    }
    match best {
        Some(b) => Some(releases[b].version.clone()),
        None => None,
    }
}

/// The handler of the game list.
#[derive(Debug, Clone, Copy)]
pub struct GamesMessageHandler;

impl GamesMessageHandler {
    /// The channel and version shown when `game` is selected: the game's
    /// opening channel and the greatest version installed on it.
    pub fn select_game(&self, game: &Game) -> (r: (Option<String>, Option<String>))
        ensures
            r.0 == opening_channel(*game),
            r.0 is None ==> r.1 is None,
            r.0 matches Some(c) ==> (r.1 is None <==> forall|j: int|
                0 <= j < game.releases@.len() ==> !installed_on(#[trigger] game.releases@[j], c@)),
            r.0 matches Some(c) ==> (r.1 matches Some(v) ==> is_highest_installed(game.releases@, c@, v@)),
    {
        let channel = match &game.selected_channel {
            Some(c) => Some(c.clone()),
            None => if game.releases.len() > 0 {
                Some(game.releases[0].channel_name.clone())
            } else {
                None
            },
        };
        let version = match &channel {
            Some(c) => highest_installed_version(&game.releases, c.as_str()),
            None => None,
        };
        (channel, version)
    }
}

} // verus!
