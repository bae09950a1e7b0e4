use vstd::prelude::*;

use crate::catalog::{catalog_has, GameInfoResponse, GetGamesResponse, ReleaseInfoResponse};
use crate::config::{
    first_game, games_view, has_game, DropsAccountConfig, Game, GameView, Release, ReleaseState,
};

verus! {

/// Why a catalog merge was abandoned.
#[derive(Debug, Clone)]
pub enum ReconcileError {
    /// The game to patch, named by its name-id, is not in the account.
    MissingGame(String),
}

/// A release newly learnt from the catalog: nothing of it is installed yet.
pub open spec fn release_from_info(r: ReleaseInfoResponse) -> Release {
    Release {
        channel_name: r.channel,
        version: r.version,
        description: r.description,
        state: ReleaseState::NotInstalled,
        release_date: r.release_date,
        executable_path: r.executable_path,
        size_bytes: r.size_bytes,
    }
}

/// The channel a new game starts on: the catalog's default, else the
/// channel of its first release, else none.
pub open spec fn initial_channel(g: GameInfoResponse) -> Option<String> {
    match g.default_channel {
        Some(c) => Some(c),
        None => if g.releases@.len() > 0 {
            Some(g.releases@[0].channel)
        } else {
            None
        },
    }
}

/// A game first seen in the catalog.
pub open spec fn new_game_view(g: GameInfoResponse) -> GameView {
    GameView {
        name: g.name,
        name_id: g.name_id,
        description: g.description,
        author: g.author,
        orphaned: false,
        selected_channel: initial_channel(g),
        releases: g.releases@.map_values(|r: ReleaseInfoResponse| release_from_info(r)),
    }
}

/// Whether some release of `rs` has version `v`.
pub open spec fn has_version(rs: Seq<Release>, v: Seq<char>) -> bool {
    exists|i: int| 0 <= i < rs.len() && (#[trigger] rs[i]).version@ == v
}

/// The catalog releases whose version is not yet in `known`, in catalog order.
pub open spec fn unknown_releases(known: Seq<Release>, infos: Seq<ReleaseInfoResponse>) -> Seq<
    Release,
>
    decreases infos.len(),
{
    if infos.len() == 0 {
        Seq::empty()
    } else {
        let prev = unknown_releases(known, infos.drop_last());
        if has_version(known, infos.last().version@) {
            prev
        } else {
            prev.push(release_from_info(infos.last()))
        }
    }
}

/// A known game brought up to date with its catalog entry: the catalog's
/// metadata, the local channel choice, the new releases ahead of all the
/// releases known before.
pub open spec fn patched_view(existing: GameView, info: GameInfoResponse) -> GameView {
    GameView {
        name: info.name,
        name_id: existing.name_id,
        description: info.description,
        author: info.author,
        orphaned: false,
        selected_channel: existing.selected_channel,
        releases: unknown_releases(existing.releases, info.releases@) + existing.releases,
    }
}

/// A known game that the catalog no longer lists.
pub open spec fn orphan_view(g: GameView) -> GameView {
    GameView { orphaned: true, ..g }
}

/// The catalog entry keyed by `id`, if any.
pub open spec fn lookup(c: Seq<GameInfoResponse>, id: Seq<char>) -> Option<GameInfoResponse>
    decreases c.len(),
{
    if c.len() == 0 {
        None
    } else if c.last().name_id@ == id {
        Some(c.last())
    } else {
        lookup(c.drop_last(), id)
    }
}

/// The games of the catalog that `local` does not know, in catalog order.
pub open spec fn new_games(local: Seq<GameView>, c: Seq<GameInfoResponse>) -> Seq<GameView>
    decreases c.len(),
{
    if c.len() == 0 {
        Seq::empty()
    } else {
        let prev = new_games(local, c.drop_last());
        if has_game(local, c.last().name_id@) {
            prev
        } else {
            prev.push(new_game_view(c.last()))
        }
    }
}

/// What a known game becomes once the catalog entries `c` have been consumed,
/// before orphans are flagged.
pub open spec fn consumed_view(g: GameView, c: Seq<GameInfoResponse>) -> GameView {
    match lookup(c, g.name_id@) {
        Some(info) => patched_view(g, info),
        None => g,
    }
}

/// What a known game becomes after a full merge with catalog `c`.
pub open spec fn merged_view(g: GameView, c: Seq<GameInfoResponse>) -> GameView {
    match lookup(c, g.name_id@) {
        Some(info) => patched_view(g, info),
        None => orphan_view(g),
    }
}

/// The game list after merging catalog `c` into `local`: each known game
/// patched or flagged as orphaned in place, then the new games appended.
pub open spec fn merged_games(local: Seq<GameView>, c: Seq<GameInfoResponse>) -> Seq<GameView> {
    Seq::new(local.len(), |i: int| merged_view(local[i], c)) + new_games(local, c)
}

/// No two games of `gs` share a name-id.
pub open spec fn unique_ids(gs: Seq<GameView>) -> bool {
    forall|i: int, j: int|
        0 <= i < j < gs.len() ==> (#[trigger] gs[i]).name_id@ != (#[trigger] gs[j]).name_id@
}

pub proof fn lemma_lookup(c: Seq<GameInfoResponse>, id: Seq<char>)
    ensures
        lookup(c, id) is None <==> !catalog_has(c, id),
        lookup(c, id) matches Some(info) ==> info.name_id@ == id,
    decreases c.len(),
{
    if c.len() > 0 {
        lemma_lookup(c.drop_last(), id);
        if c.last().name_id@ != id {
            assert(catalog_has(c, id) ==> catalog_has(c.drop_last(), id)) by {
                if catalog_has(c, id) {
                    let j = choose|j: int| 0 <= j < c.len() && (#[trigger] c[j]).name_id@ == id;
                    assert(c.drop_last()[j] == c[j]);
                }
            }
            assert(catalog_has(c.drop_last(), id) ==> catalog_has(c, id)) by {
                if catalog_has(c.drop_last(), id) {
                    let j = choose|j: int|
                        0 <= j < c.drop_last().len() && (#[trigger] c.drop_last()[j]).name_id@
                            == id;
                    assert(c[j] == c.drop_last()[j]);
                }
            }
        } else {
            assert(c[c.len() - 1].name_id@ == id);
        }
    }
}

proof fn lemma_take_step<T>(s: Seq<T>, k: int)
    requires
        0 <= k < s.len(),
    ensures
        s.take(k + 1).drop_last() == s.take(k),
        s.take(k + 1).last() == s[k],
        s.take(k + 1).len() == k + 1,
{
    assert(s.take(k + 1).drop_last() =~= s.take(k));
}

impl DropsAccountConfig {
    /// No two games of the account share a name-id.
    pub open spec fn wf(&self) -> bool {
        unique_ids(games_view(self.games@))
    }

    /// A release record for a catalog release, not installed.
    pub fn create_new_release(r: &ReleaseInfoResponse) -> (out: Release)
        ensures
            out == release_from_info(*r),
    {
        Release {
            channel_name: r.channel.clone(),
            description: r.description.clone(),
            version: r.version.clone(),
            state: ReleaseState::NotInstalled,
            release_date: r.release_date,
            executable_path: r.executable_path.clone(),
            size_bytes: r.size_bytes,
        }
    }

    /// Appends a game first seen in the catalog.
    pub fn add_new_game(&mut self, game_info: &GameInfoResponse)
        ensures
            games_view(final(self).games@) == games_view(old(self).games@).push(
                new_game_view(*game_info),
            ),
            final(self).id == old(self).id,
            final(self).games_dir == old(self).games_dir,
            final(self).url == old(self).url,
            final(self).username == old(self).username,
            final(self).session_token == old(self).session_token,
    {
        let mut releases: Vec<Release> = Vec::new();
        let mut i: usize = 0;
        while i < game_info.releases.len()
            invariant
                i <= game_info.releases@.len(),
                releases@ == game_info.releases@.subrange(0, i as int).map_values(
                    |r: ReleaseInfoResponse| release_from_info(r),
                ),
            decreases game_info.releases@.len() - i,
        {
            releases.push(Self::create_new_release(&game_info.releases[i]));
            i = i + 1;
            assert(releases@ =~= game_info.releases@.subrange(0, i as int).map_values(
                |r: ReleaseInfoResponse| release_from_info(r),
            ));
        }
        assert(game_info.releases@.subrange(0, i as int) =~= game_info.releases@);
        let selected_channel = match &game_info.default_channel {
            Some(channel) => Some(channel.clone()),
            None => if releases.len() > 0 {
                Some(releases[0].channel_name.clone())
            } else {
                None
            },
        };
        let stored_game = Game {
            name: game_info.name.clone(),
            name_id: game_info.name_id.clone(),
            description: game_info.description.clone(),
            author: game_info.author.clone(),
            releases,
            orphaned: false,
            selected_channel,
        };
        self.games.push(stored_game);
        assert(games_view(self.games@) =~= games_view(old(self).games@).push(
            new_game_view(*game_info),
        ));
    }
}

/// Whether some release of `rs` has version `v`.
fn release_version_known(rs: &Vec<Release>, v: &String) -> (r: bool)
    ensures
        r == has_version(rs@, v@),
{
    let mut i: usize = 0;
    while i < rs.len()
        invariant
            i <= rs@.len(),
            forall|j: int| 0 <= j < i ==> (#[trigger] rs@[j]).version@ != v@,
        decreases rs@.len() - i,
    {
        if rs[i].version == *v {
            return true;
        }
        i = i + 1;
    }
    false
}

/// The position of the first of the first `n` games keyed by `id`, if any.
fn find_game_index(games: &Vec<Game>, n: usize, id: &String) -> (r: Option<usize>)
    requires
        n <= games@.len(),
    ensures
        match r {
            Some(i) => i < n && first_game(games_view(games@), id@, i as int),
            None => forall|j: int| 0 <= j < n ==> (#[trigger] games@[j]).name_id@ != id@,
        },
{
    let mut i: usize = 0;
    while i < n
        invariant
            i <= n <= games@.len(),
            forall|j: int| 0 <= j < i ==> (#[trigger] games@[j]).name_id@ != id@,
        decreases n - i,
    {
        if games[i].name_id == *id {
            proof {
                assert forall|m: int| 0 <= m < i implies (#[trigger] games_view(games@)[m]).name_id@
                    != id@ by {
                    assert(games_view(games@)[m] == games@[m]@);
                }
            }
            return Some(i);
        }
        i = i + 1;
    }
    None
}

/// Whether some entry of the catalog is keyed by `id`.
fn catalog_contains(c: &Vec<GameInfoResponse>, id: &String) -> (r: bool)
    ensures
        r == catalog_has(c@, id@),
{
    let mut i: usize = 0;
    while i < c.len()
        invariant
            i <= c@.len(),
            forall|j: int| 0 <= j < i ==> (#[trigger] c@[j]).name_id@ != id@,
        decreases c@.len() - i,
    {
        if c[i].name_id == *id {
            return true;
        }
        i = i + 1;
    }
    false
}

impl DropsAccountConfig {
    /// Replaces the first game keyed like `existing_game` with that game
    /// patched by its catalog entry; fails, changing nothing, where the
    /// account holds no such game.
    pub fn patch_existing_game(&mut self, existing_game: Game, game_info: &GameInfoResponse) -> (r:
        Result<(), ReconcileError>)
        ensures
            r.is_ok() == has_game(games_view(old(self).games@), existing_game.name_id@),
            r.is_ok() ==> exists|j: int|
                first_game(games_view(old(self).games@), existing_game.name_id@, j)
                    && games_view(final(self).games@) == games_view(old(self).games@).update(
                    j,
                    patched_view(existing_game@, *game_info),
                ),
            r.is_err() ==> final(self).games@ == old(self).games@,
            final(self).id == old(self).id,
            final(self).games_dir == old(self).games_dir,
            final(self).url == old(self).url,
            final(self).username == old(self).username,
            final(self).session_token == old(self).session_token,
    {
        let mut existing_game = existing_game;
        let ghost existing = existing_game@;
        let mut releases: Vec<Release> = Vec::new();
        let mut i: usize = 0;
        while i < game_info.releases.len()
            invariant
                i <= game_info.releases@.len(),
                existing_game@ == existing,
                releases@ == unknown_releases(
                    existing.releases,
                    game_info.releases@.take(i as int),
                ),
            decreases game_info.releases@.len() - i,
        {
            let info = &game_info.releases[i];
            proof {
                lemma_take_step(game_info.releases@, i as int);
            }
            if !release_version_known(&existing_game.releases, &info.version) {
                releases.push(Self::create_new_release(info));
            }
            i = i + 1;
        }
        assert(game_info.releases@.take(i as int) =~= game_info.releases@);
        releases.append(&mut existing_game.releases);
        let patched_game = Game {
            name: game_info.name.clone(),
            name_id: existing_game.name_id,
            description: game_info.description.clone(),
            author: game_info.author.clone(),
            orphaned: false,
            selected_channel: existing_game.selected_channel,
            releases,
        };
        assert(patched_game@ == patched_view(existing, *game_info));
        let n = self.games.len();
        match find_game_index(&self.games, n, &patched_game.name_id) {
            None => {
                proof {
                    assert forall|j: int|
                        0 <= j < games_view(self.games@).len() implies (#[trigger] games_view(
                        self.games@,
                    )[j]).name_id@ != existing.name_id@ by {
                        assert(games_view(self.games@)[j] == self.games@[j]@);
                    }
                }
                Err(ReconcileError::MissingGame(patched_game.name_id))
            },
            Some(j) => {
                self.games.set(j, patched_game);
                proof {
                    assert(games_view(self.games@) =~= games_view(old(self).games@).update(
                        j as int,
                        patched_view(existing, *game_info),
                    ));
                }
                Ok(())
            },
        }
    }
}

impl DropsAccountConfig {
    /// Merges a freshly fetched catalog into the account: known games are
    /// patched in place with their new releases ahead of the old ones, games
    /// first seen are appended, and known games that the catalog no longer
    /// lists are flagged as orphaned. Nothing is removed and no install state
    /// is reset.
    pub fn handle_game_response(&mut self, game_info_response: GetGamesResponse) -> (r: Result<
        (),
        ReconcileError,
    >)
        requires
            old(self).wf(),
            game_info_response.wf(),
        ensures
            r.is_ok(),
            games_view(final(self).games@) == merged_games(
                games_view(old(self).games@),
                game_info_response.games@,
            ),
            final(self).wf(),
            final(self).id == old(self).id,
            final(self).games_dir == old(self).games_dir,
            final(self).url == old(self).url,
            final(self).username == old(self).username,
            final(self).session_token == old(self).session_token,
    {
        let ghost local = games_view(self.games@);
        let ghost c = game_info_response.games@;
        let n_local = self.games.len();
        let mut k: usize = 0;
        while k < game_info_response.games.len()
            invariant
                k <= c.len(),
                n_local == local.len(),
                c == game_info_response.games@,
                game_info_response.wf(),
                self.games@.len() == n_local + new_games(local, c.take(k as int)).len(),
                forall|i: int|
                    0 <= i < n_local ==> #[trigger] games_view(self.games@)[i] == consumed_view(
                        local[i],
                        c.take(k as int),
                    ),
                games_view(self.games@).subrange(n_local as int, self.games@.len() as int)
                    == new_games(local, c.take(k as int)),
                forall|j: int|
                    n_local <= j < self.games@.len() ==> exists|m: int|
                        0 <= m < k && #[trigger] self.games@[j].name_id@ == c[m].name_id@,
                unique_ids(local),
                unique_ids(games_view(self.games@)),
                self.id == old(self).id,
                self.games_dir == old(self).games_dir,
                self.url == old(self).url,
                self.username == old(self).username,
                self.session_token == old(self).session_token,
            decreases c.len() - k,
        {
            let info = &game_info_response.games[k];
            let ghost before = games_view(self.games@);
            proof {
                lemma_take_step(c, k as int);
                assert forall|i: int| 0 <= i < n_local implies (#[trigger] before[i]).name_id@
                    == local[i].name_id@ by {
                    assert(before[i] == consumed_view(local[i], c.take(k as int)));
                }
            }
            match find_game_index(&self.games, n_local, &info.name_id) {
                None => {
                    proof {
                        assert(!has_game(local, info.name_id@)) by {
                            if has_game(local, info.name_id@) {
                                let i = choose|i: int|
                                    0 <= i < local.len() && (#[trigger] local[i]).name_id@
                                        == info.name_id@;
                                assert(self.games@[i]@ == before[i]);
                            }
                        }
                    }
                    self.add_new_game(info);
                    proof {
                        let after = games_view(self.games@);
                        assert forall|i: int| 0 <= i < n_local implies #[trigger] after[i]
                            == consumed_view(local[i], c.take(k + 1)) by {
                            assert(after[i] == before[i]);
                            assert(local[i].name_id@ != c[k as int].name_id@);
                        }
                        assert(after.subrange(n_local as int, after.len() as int) =~= before.subrange(
                            n_local as int,
                            before.len() as int,
                        ).push(new_game_view(c[k as int])));
                        assert forall|j: int|
                            n_local <= j < self.games@.len() implies exists|m: int|
                            0 <= m < k + 1 && #[trigger] self.games@[j].name_id@
                                == c[m].name_id@ by {
                            if j == self.games@.len() - 1 {
                                assert(self.games@[j]@ == after[j]);
                                assert(self.games@[j].name_id@ == c[k as int].name_id@);
                            } else {
                                assert(after[j] == before[j]);
                                assert(self.games@[j]@ == after[j]);
                                let m = choose|m: int|
                                    0 <= m < k && #[trigger] before[j].name_id@
                                        == c[m].name_id@;
                                assert(self.games@[j].name_id@ == c[m].name_id@);
                            }
                        }
                        assert forall|a: int, b: int|
                            0 <= a < b < after.len() implies (#[trigger] after[a]).name_id@
                            != (#[trigger] after[b]).name_id@ by {
                            if b == after.len() - 1 {
                                if a >= n_local {
                                    assert(self.games@[a]@ == after[a]);
                                    let m = choose|m: int|
                                        0 <= m < k && #[trigger] self.games@[a].name_id@
                                            == c[m].name_id@;
                                    assert(c[m].name_id@ != c[k as int].name_id@);
                                } else {
                                    assert(after[a] == before[a]);
                                }
                            } else {
                                assert(after[a] == before[a]);
                                assert(after[b] == before[b]);
                            }
                        }
                    }
                },
                Some(i) => {
                    proof {
                        assert(!catalog_has(c.take(k as int), info.name_id@)) by {
                            if catalog_has(c.take(k as int), info.name_id@) {
                                let m = choose|m: int|
                                    0 <= m < c.take(k as int).len() && (#[trigger] c.take(
                                        k as int,
                                    )[m]).name_id@ == info.name_id@;
                                assert(c[m].name_id@ == c[k as int].name_id@);
                            }
                        }
                        lemma_lookup(c.take(k as int), info.name_id@);
                        assert(before[i as int] == local[i as int]);
                    }
                    let existing = self.games[i].duplicate();
                    match self.patch_existing_game(existing, info) {
                        Ok(()) => {},
                        Err(e) => {
                            proof {
                                assert(before[i as int].name_id@ == info.name_id@);
                            }
                            return Err(e);
                        },
                    }
                    proof {
                        let after = games_view(self.games@);
                        let j = choose|j: int|
                            first_game(before, info.name_id@, j) && after == before.update(
                                j,
                                patched_view(local[i as int], *info),
                            );
                        assert(j == i);
                        assert forall|a: int| 0 <= a < n_local implies #[trigger] after[a]
                            == consumed_view(local[a], c.take(k + 1)) by {
                            if a != i {
                                assert(local[a].name_id@ != local[i as int].name_id@);
                                assert(after[a] == before[a]);
                            }
                        }
                        assert(has_game(local, c[k as int].name_id@)) by {
                            assert(local[i as int].name_id@ == c[k as int].name_id@);
                        }
                        assert(after.subrange(n_local as int, after.len() as int) =~= before.subrange(
                            n_local as int,
                            before.len() as int,
                        ));
                        assert forall|jj: int|
                            n_local <= jj < self.games@.len() implies exists|m: int|
                            0 <= m < k + 1 && #[trigger] self.games@[jj].name_id@
                                == c[m].name_id@ by {
                            assert(self.games@[jj]@ == after[jj]);
                            assert(after[jj] == before[jj]);
                        }
                        assert forall|a: int, b: int|
                            0 <= a < b < after.len() implies (#[trigger] after[a]).name_id@
                            != (#[trigger] after[b]).name_id@ by {
                            assert(after[a].name_id@ == before[a].name_id@);
                            assert(after[b].name_id@ == before[b].name_id@);
                        }
                    }
                },
            }
            k = k + 1;
        }
        assert(c.take(k as int) =~= c);
        let mut i: usize = 0;
        while i < n_local
            invariant
                i <= n_local == local.len(),
                k == c.len(),
                c == game_info_response.games@,
                self.games@.len() == n_local + new_games(local, c).len(),
                forall|m: int|
                    0 <= m < i ==> #[trigger] games_view(self.games@)[m] == merged_view(
                        local[m],
                        c,
                    ),
                forall|m: int|
                    i <= m < n_local ==> #[trigger] games_view(self.games@)[m] == consumed_view(
                        local[m],
                        c,
                    ),
                games_view(self.games@).subrange(n_local as int, self.games@.len() as int)
                    == new_games(local, c),
                unique_ids(games_view(self.games@)),
                self.id == old(self).id,
                self.games_dir == old(self).games_dir,
                self.url == old(self).url,
                self.username == old(self).username,
                self.session_token == old(self).session_token,
            decreases n_local - i,
        {
            let ghost before = games_view(self.games@);
            proof {
                assert(before[i as int] == consumed_view(local[i as int], c));
                lemma_lookup(c, local[i as int].name_id@);
            }
            if !catalog_contains(&game_info_response.games, &self.games[i].name_id) {
                self.games[i].orphaned = true;
                proof {
                    let after = games_view(self.games@);
                    assert(after =~= before.update(i as int, orphan_view(before[i as int])));
                    assert(after.subrange(n_local as int, after.len() as int) =~= before.subrange(
                        n_local as int,
                        before.len() as int,
                    ));
                    assert forall|a: int, b: int|
                        0 <= a < b < after.len() implies (#[trigger] after[a]).name_id@
                        != (#[trigger] after[b]).name_id@ by {
                        assert(after[a].name_id@ == before[a].name_id@);
                        assert(after[b].name_id@ == before[b].name_id@);
                    }
                }
            }
            i = i + 1;
        }
        assert(games_view(self.games@) =~= merged_games(local, c));
        Ok(())
    }
}

/// Every release version of `infos` is known once its unknown releases
/// have been put ahead of `known`.
proof fn lemma_versions_known_after(known: Seq<Release>, infos: Seq<ReleaseInfoResponse>)
    ensures
        forall|j: int|
            0 <= j < infos.len() ==> has_version(
                unknown_releases(known, infos) + known,
                (#[trigger] infos[j]).version@,
            ),
    decreases infos.len(),
{
    if infos.len() > 0 {
        let prev = infos.drop_last();
        lemma_versions_known_after(known, prev);
        let u0 = unknown_releases(known, prev);
        let u = unknown_releases(known, infos);
        let s0 = u0 + known;
        let s = u + known;
        assert forall|j: int| 0 <= j < infos.len() implies has_version(
            s,
            (#[trigger] infos[j]).version@,
        ) by {
            let v = infos[j].version@;
            if j == infos.len() - 1 {
                if has_version(known, v) {
                    let p = choose|p: int| 0 <= p < known.len() && (#[trigger] known[p]).version@ == v;
                    assert(s[u.len() + p] == known[p]);
                } else {
                    assert(s[u.len() - 1] == release_from_info(infos.last()));
                }
            } else {
                assert(prev[j] == infos[j]);
                assert(has_version(s0, v));
                let p = choose|p: int| 0 <= p < s0.len() && (#[trigger] s0[p]).version@ == v;
                if u == u0 {
                    assert(s[p] == s0[p]);
                } else {
                    assert(u == u0.push(release_from_info(infos.last())));
                    if p < u0.len() {
                        assert(s[p] == s0[p]);
                    } else {
                        assert(s[p + 1] == s0[p]);
                    }
                }
            }
        }
    }
}

/// Nothing of `infos` is unknown to a list that knows all their versions.
proof fn lemma_no_unknown_releases(known: Seq<Release>, infos: Seq<ReleaseInfoResponse>)
    requires
        forall|j: int| 0 <= j < infos.len() ==> has_version(known, (#[trigger] infos[j]).version@),
    ensures
        unknown_releases(known, infos) == Seq::<Release>::empty(),
    decreases infos.len(),
{
    if infos.len() > 0 {
        let prev = infos.drop_last();
        assert forall|j: int| 0 <= j < prev.len() implies has_version(
            known,
            (#[trigger] prev[j]).version@,
        ) by {
            assert(prev[j] == infos[j]);
        }
        lemma_no_unknown_releases(known, prev);
        assert(has_version(known, infos[infos.len() - 1].version@));
    }
}

/// Patching a game twice with the same catalog entry is patching it once.
proof fn lemma_patch_idempotent(g: GameView, info: GameInfoResponse)
    ensures
        patched_view(patched_view(g, info), info) == patched_view(g, info),
{
    let p = patched_view(g, info);
    lemma_versions_known_after(g.releases, info.releases@);
    lemma_no_unknown_releases(p.releases, info.releases@);
    assert(Seq::<Release>::empty() + p.releases =~= p.releases);
}

/// A game that the catalog lists is no longer new once it is known.
proof fn lemma_new_games_of_known(local: Seq<GameView>, c: Seq<GameInfoResponse>)
    requires
        forall|j: int| 0 <= j < c.len() ==> has_game(local, (#[trigger] c[j]).name_id@),
    ensures
        new_games(local, c) == Seq::<GameView>::empty(),
    decreases c.len(),
{
    if c.len() > 0 {
        let prev = c.drop_last();
        assert forall|j: int| 0 <= j < prev.len() implies has_game(
            local,
            (#[trigger] prev[j]).name_id@,
        ) by {
            assert(prev[j] == c[j]);
        }
        lemma_new_games_of_known(local, prev);
        assert(has_game(local, c[c.len() - 1].name_id@));
    }
}

/// The games that a merge appends are keyed by catalog entries unknown before.
proof fn lemma_new_games_entries(local: Seq<GameView>, c: Seq<GameInfoResponse>)
    ensures
        forall|p: int|
            0 <= p < new_games(local, c).len() ==> exists|j: int|
                0 <= j < c.len() && #[trigger] new_games(local, c)[p] == new_game_view(c[j]),
        forall|j: int|
            0 <= j < c.len() && !has_game(local, (#[trigger] c[j]).name_id@) ==> exists|p: int|
                0 <= p < new_games(local, c).len() && new_games(local, c)[p].name_id
                    == c[j].name_id,
    decreases c.len(),
{
    if c.len() > 0 {
        let prev = c.drop_last();
        lemma_new_games_entries(local, prev);
        let n0 = new_games(local, prev);
        let n = new_games(local, c);
        assert forall|p: int| 0 <= p < n.len() implies exists|j: int|
            0 <= j < c.len() && #[trigger] n[p] == new_game_view(c[j]) by {
            if p < n0.len() {
                assert(n[p] == n0[p]);
                let j = choose|j: int| 0 <= j < prev.len() && #[trigger] n0[p] == new_game_view(prev[j]);
                assert(prev[j] == c[j]);
            } else {
                assert(n[p] == new_game_view(c[c.len() - 1]));
            }
        }
        assert forall|j: int|
            0 <= j < c.len() && !has_game(local, (#[trigger] c[j]).name_id@) implies exists|p: int|
            0 <= p < n.len() && n[p].name_id == c[j].name_id by {
            if j == c.len() - 1 {
                assert(n[n.len() - 1] == new_game_view(c[j]));
            } else {
                assert(prev[j] == c[j]);
                let p = choose|p: int| 0 <= p < n0.len() && n0[p].name_id == prev[j].name_id;
                assert(n[p] == n0[p]);
            }
        }
    }
}

/// Merging never loses a locally recorded install: each release of a known
/// game is still in that game's release list afterwards, unchanged, so one
/// that was installed stays installed, whatever the catalog holds.
pub proof fn lemma_merge_keeps_installs(
    local: Seq<GameView>,
    c: Seq<GameInfoResponse>,
    i: int,
    r: int,
)
    requires
        0 <= i < local.len(),
        0 <= r < local[i].releases.len(),
    ensures
        merged_games(local, c)[i].name_id == local[i].name_id,
        exists|p: int|
            0 <= p < merged_games(local, c)[i].releases.len() && merged_games(local, c)[i].releases[p]
                == local[i].releases[r],
        local[i].releases[r].state == ReleaseState::Installed ==> exists|p: int|
            0 <= p < merged_games(local, c)[i].releases.len() && merged_games(
                local,
                c,
            )[i].releases[p].state == ReleaseState::Installed,
{
    let m = merged_games(local, c)[i];
    assert(m == merged_view(local[i], c));
    match lookup(c, local[i].name_id@) {
        Some(info) => {
            let u = unknown_releases(local[i].releases, info.releases@);
            assert(m.releases[u.len() + r] == local[i].releases[r]);
        },
        None => {
            assert(m.releases[r] == local[i].releases[r]);
        },
    }
}

/// A game first seen in a catalog is left as it is by that catalog.
proof fn lemma_new_game_fixed(c: Seq<GameInfoResponse>, j: int)
    requires
        0 <= j < c.len(),
        forall|a: int, b: int|
            0 <= a < b < c.len() ==> (#[trigger] c[a]).name_id@ != (#[trigger] c[b]).name_id@,
    ensures
        merged_view(new_game_view(c[j]), c) == new_game_view(c[j]),
{
    assert(catalog_has(c, c[j].name_id@));
    lemma_lookup_unique(c, j);
    let g = new_game_view(c[j]);
    lemma_versions_known_after(Seq::<Release>::empty(), c[j].releases@);
    assert(unknown_releases(Seq::<Release>::empty(), c[j].releases@) + Seq::<Release>::empty()
        =~= unknown_releases(Seq::<Release>::empty(), c[j].releases@));
    lemma_unknown_from_empty(c[j].releases@);
    lemma_no_unknown_releases(g.releases, c[j].releases@);
    assert(patched_view(g, c[j]).releases =~= g.releases);
}

/// Where the catalog keys each entry once, looking up an entry's key finds it.
proof fn lemma_lookup_unique(c: Seq<GameInfoResponse>, j: int)
    requires
        0 <= j < c.len(),
        forall|a: int, b: int|
            0 <= a < b < c.len() ==> (#[trigger] c[a]).name_id@ != (#[trigger] c[b]).name_id@,
    ensures
        lookup(c, c[j].name_id@) == Some(c[j]),
    decreases c.len(),
{
    if j < c.len() - 1 {
        let prev = c.drop_last();
        assert(c[j].name_id@ != c[c.len() - 1].name_id@);
        assert forall|a: int, b: int|
            0 <= a < b < prev.len() implies (#[trigger] prev[a]).name_id@
            != (#[trigger] prev[b]).name_id@ by {
            assert(prev[a] == c[a]);
            assert(prev[b] == c[b]);
        }
        lemma_lookup_unique(prev, j);
        assert(prev[j] == c[j]);
    }
}

/// Against an empty list, every catalog release is unknown.
proof fn lemma_unknown_from_empty(infos: Seq<ReleaseInfoResponse>)
    ensures
        unknown_releases(Seq::<Release>::empty(), infos) == infos.map_values(
            |r: ReleaseInfoResponse| release_from_info(r),
        ),
    decreases infos.len(),
{
    if infos.len() > 0 {
        lemma_unknown_from_empty(infos.drop_last());
        assert(!has_version(Seq::<Release>::empty(), infos.last().version@));
        assert(infos.map_values(|r: ReleaseInfoResponse| release_from_info(r)) =~= infos.drop_last().map_values(
            |r: ReleaseInfoResponse| release_from_info(r),
        ).push(release_from_info(infos.last())));
    }
}

/// After a merge, every game of the catalog is known.
proof fn lemma_merge_knows_catalog(local: Seq<GameView>, c: Seq<GameInfoResponse>)
    ensures
        forall|j: int|
            0 <= j < c.len() ==> has_game(merged_games(local, c), (#[trigger] c[j]).name_id@),
{
    let m = merged_games(local, c);
    let n = new_games(local, c);
    lemma_new_games_entries(local, c);
    assert forall|j: int| 0 <= j < c.len() implies has_game(m, (#[trigger] c[j]).name_id@) by {
        if has_game(local, c[j].name_id@) {
            let i = choose|i: int|
                0 <= i < local.len() && (#[trigger] local[i]).name_id@ == c[j].name_id@;
            assert(m[i] == merged_view(local[i], c));
            assert(m[i].name_id@ == c[j].name_id@);
        } else {
            let p = choose|p: int| 0 <= p < n.len() && n[p].name_id == c[j].name_id;
            assert(m[local.len() + p] == n[p]);
        }
    }
}

/// Merging the same catalog a second time changes nothing: no release or
/// game is duplicated and every record is as the first merge left it.
pub proof fn lemma_merge_idempotent(local: Seq<GameView>, c: Seq<GameInfoResponse>)
    requires
        forall|i: int, j: int|
            0 <= i < j < c.len() ==> (#[trigger] c[i]).name_id@ != (#[trigger] c[j]).name_id@,
    ensures
        merged_games(merged_games(local, c), c) == merged_games(local, c),
{
    let m = merged_games(local, c);
    let n = new_games(local, c);
    lemma_merge_knows_catalog(local, c);
    lemma_new_games_of_known(m, c);
    lemma_new_games_entries(local, c);
    assert forall|i: int| 0 <= i < m.len() implies #[trigger] merged_view(m[i], c) == m[i] by {
        if i < local.len() {
            assert(m[i] == merged_view(local[i], c));
            match lookup(c, local[i].name_id@) {
                Some(info) => {
                    lemma_patch_idempotent(local[i], info);
                },
                None => {},
            }
        } else {
            let p = i - local.len();
            assert(m[i] == n[p]);
            let j = choose|j: int| 0 <= j < c.len() && #[trigger] n[p] == new_game_view(c[j]);
            lemma_new_game_fixed(c, j);
        }
    }
    assert(merged_games(m, c) =~= m);
}

/// A known game that a catalog leaves out is flagged as orphaned with all
/// else unchanged; when a later catalog lists it again, merging clears the
/// flag, takes the catalog's metadata and keeps every release it had.
pub proof fn lemma_orphan_round_trip(
    local: Seq<GameView>,
    c1: Seq<GameInfoResponse>,
    c2: Seq<GameInfoResponse>,
    i: int,
)
    requires
        0 <= i < local.len(),
        !catalog_has(c1, local[i].name_id@),
        catalog_has(c2, local[i].name_id@),
    ensures
        merged_games(local, c1)[i] == orphan_view(local[i]),
        merged_games(local, c1)[i].orphaned,
        merged_games(local, c1)[i].releases == local[i].releases,
        ({
            let g = merged_games(merged_games(local, c1), c2)[i];
            let info = lookup(c2, local[i].name_id@).unwrap();
            &&& lookup(c2, local[i].name_id@) is Some
            &&& info.name_id@ == local[i].name_id@
            &&& !g.orphaned
            &&& g.name_id == local[i].name_id
            &&& g.name == info.name
            &&& g.description == info.description
            &&& g.author == info.author
            &&& g.selected_channel == local[i].selected_channel
            &&& g.releases.subrange(g.releases.len() - local[i].releases.len(), g.releases.len() as int)
                == local[i].releases
        }),
{
    lemma_lookup(c1, local[i].name_id@);
    lemma_lookup(c2, local[i].name_id@);
    let m1 = merged_games(local, c1);
    assert(m1[i] == merged_view(local[i], c1));
    let m2 = merged_games(m1, c2);
    assert(m2[i] == merged_view(m1[i], c2));
    let g = m2[i];
    let info = lookup(c2, local[i].name_id@).unwrap();
    let u = unknown_releases(local[i].releases, info.releases@);
    assert(g.releases.subrange(u.len() as int, g.releases.len() as int) =~= local[i].releases);
}

} // verus!
