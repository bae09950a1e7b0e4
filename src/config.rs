use vstd::prelude::*;

use crate::catalog::GetGamesResponse;
use crate::reconcile::{merged_games, unique_ids, ReconcileError};

verus! {

/// Whether a release is present in the local install root.
#[derive(PartialEq, Eq, Structural, Debug, Clone, Copy)]
pub enum ReleaseState {
    NotInstalled,
    Installed,
}

/// One installable build of a game on one channel.
#[derive(Debug, Clone)]
pub struct Release {
    pub channel_name: String,
    pub version: String,
    pub description: String,
    pub state: ReleaseState,
    /// Release time, in milliseconds since the Unix epoch.
    pub release_date: i64,
    pub executable_path: String,
    pub size_bytes: u64,
}

/// The opaque credential issued at login.
#[derive(Debug, Clone)]
pub struct SessionToken(pub String);

/// One title owned by an account.
#[derive(Debug, Clone)]
pub struct Game {
    pub name: String,
    pub name_id: String,
    pub description: String,
    pub author: String,
    pub orphaned: bool,
    pub selected_channel: Option<String>,
    pub releases: Vec<Release>,
}

/// A game with its release list seen as a sequence.
pub struct GameView {
    pub name: String,
    pub name_id: String,
    pub description: String,
    pub author: String,
    pub orphaned: bool,
    pub selected_channel: Option<String>,
    pub releases: Seq<Release>,
}

impl View for Game {
    type V = GameView;

    open spec fn view(&self) -> GameView {
        GameView {
            name: self.name,
            name_id: self.name_id,
            description: self.description,
            author: self.author,
            orphaned: self.orphaned,
            selected_channel: self.selected_channel,
            releases: self.releases@,
        }
    }
}

/// One configured connection to a catalog server.
#[derive(Debug, Clone)]
pub struct DropsAccountConfig {
    pub id: u128,
    pub games_dir: String,
    pub url: String,
    pub username: String,
    pub session_token: SessionToken,
    pub games: Vec<Game>,
}

/// The persisted configuration document.
#[derive(Debug, Clone)]
pub struct ClientConfig {
    pub active_account: u128,
    pub accounts: Vec<DropsAccountConfig>,
    pub is_active: bool,
}

/// The games of `gs` seen through their views.
pub open spec fn games_view(gs: Seq<Game>) -> Seq<GameView> {
    gs.map_values(|g: Game| g@)
}

impl Release {
    /// A copy of this release, equal to it field by field.
    pub fn duplicate(&self) -> (r: Release)
        ensures
            r == *self,
    {
        Release {
            channel_name: self.channel_name.clone(),
            version: self.version.clone(),
            description: self.description.clone(),
            state: self.state,
            release_date: self.release_date,
            executable_path: self.executable_path.clone(),
            size_bytes: self.size_bytes,
        }
    }
}

/// A copy of a release list, element by element.
pub fn duplicate_releases(rs: &Vec<Release>) -> (r: Vec<Release>)
    ensures
        r@ == rs@,
{
    let mut out: Vec<Release> = Vec::new();
    let mut i: usize = 0;
    while i < rs.len()
        invariant
            i <= rs@.len(),
            out@ == rs@.subrange(0, i as int),
        decreases rs@.len() - i,
    {
        out.push(rs[i].duplicate());
        i = i + 1;
    }
    assert(out@ =~= rs@);
    out
}

impl Game {
    /// A copy of this game, equal to it in every field and release.
    pub fn duplicate(&self) -> (r: Game)
        ensures
            r@ == self@,
    {
        Game {
            name: self.name.clone(),
            name_id: self.name_id.clone(),
            description: self.description.clone(),
            author: self.author.clone(),
            orphaned: self.orphaned,
            selected_channel: match &self.selected_channel {
                Some(c) => Some(c.clone()),
                None => None,
            },
            releases: duplicate_releases(&self.releases),
        }
    }
}

/// A copy of a game list, game by game.
pub fn duplicate_games(gs: &Vec<Game>) -> (r: Vec<Game>)
    ensures
        games_view(r@) == games_view(gs@),
{
    let mut out: Vec<Game> = Vec::new();
    let mut i: usize = 0;
    while i < gs.len()
        invariant
            i <= gs@.len(),
            out@.len() == i,
            forall|m: int| 0 <= m < i ==> (#[trigger] out@[m])@ == gs@[m]@,
        decreases gs@.len() - i,
    {
        out.push(gs[i].duplicate());
        i = i + 1;
    }
    assert(games_view(out@) =~= games_view(gs@));
    out
}

/// Why an install state could not be recorded.
#[derive(Debug, Clone)]
pub enum InstallStateError {
    /// No game of the account has this name-id.
    GameNotFound(String),
    /// The game has no release with this version on this channel.
    ReleaseNotFound { version: String, channel_name: String },
}

/// Whether some game of `gs` is keyed by `id`.
pub open spec fn has_game(gs: Seq<GameView>, id: Seq<char>) -> bool {
    exists|i: int| 0 <= i < gs.len() && (#[trigger] gs[i]).name_id@ == id
}

/// `j` is the first position of `gs` keyed by `id`.
pub open spec fn first_game(gs: Seq<GameView>, id: Seq<char>, j: int) -> bool {
    &&& 0 <= j < gs.len()
    &&& gs[j].name_id@ == id
    &&& forall|m: int| 0 <= m < j ==> (#[trigger] gs[m]).name_id@ != id
}

/// Whether release `r` has this version on this channel.
pub open spec fn release_matches(r: Release, version: Seq<char>, channel: Seq<char>) -> bool {
    r.version@ == version && r.channel_name@ == channel
}

/// Whether some release of `rs` has this version on this channel.
pub open spec fn has_release(rs: Seq<Release>, version: Seq<char>, channel: Seq<char>) -> bool {
    exists|i: int| 0 <= i < rs.len() && release_matches(#[trigger] rs[i], version, channel)
}

/// `j` is the first position of `rs` with this version on this channel.
pub open spec fn first_release(rs: Seq<Release>, version: Seq<char>, channel: Seq<char>, j: int) -> bool {
    &&& 0 <= j < rs.len()
    &&& release_matches(rs[j], version, channel)
    &&& forall|m: int| 0 <= m < j ==> !release_matches(#[trigger] rs[m], version, channel)
}

/// `new` is `old` with the install state of one release set to `state`, or
/// `old` unchanged where the result `r` is an error.
pub open spec fn install_state_updated(
    old: Seq<GameView>,
    new: Seq<GameView>,
    id: Seq<char>,
    version: Seq<char>,
    channel: Seq<char>,
    state: ReleaseState,
    r: Result<(), InstallStateError>,
) -> bool {
    &&& (r matches Err(InstallStateError::GameNotFound(_))) <==> !has_game(old, id)
    &&& (r matches Err(InstallStateError::ReleaseNotFound { .. })) <==> exists|g: int|
        first_game(old, id, g) && !has_release(old[g].releases, version, channel)
    &&& r.is_err() ==> new == old
    &&& r.is_ok() ==> exists|g: int, k: int|
        first_game(old, id, g) && first_release(old[g].releases, version, channel, k) && new
            == old.update(
            g,
            GameView {
                releases: old[g].releases.update(k, Release { state: state, ..old[g].releases[k] }),
                ..old[g]
            },
        )
}

/// The position of the first game keyed by `id`, if any.
fn find_game(games: &Vec<Game>, id: &str) -> (r: Option<usize>)
    ensures
        match r {
            Some(g) => first_game(games_view(games@), id@, g as int),
            None => !has_game(games_view(games@), id@),
        },
{
    let ghost gv = games_view(games@);
    let mut g: usize = 0;
    while g < games.len()
        invariant
            g <= games@.len(),
            gv == games_view(games@),
            forall|m: int| 0 <= m < g ==> (#[trigger] gv[m]).name_id@ != id@,
        decreases games@.len() - g,
    {
        if crate::text::text_eq(games[g].name_id.as_str(), id) {
            return Some(g);
        }
        g = g + 1;
    }
    None
}

/// The position of the first release with this version on this channel, if any.
fn find_release(rs: &Vec<Release>, version: &str, channel_name: &str) -> (r: Option<usize>)
    ensures
        match r {
            Some(k) => first_release(rs@, version@, channel_name@, k as int),
            None => !has_release(rs@, version@, channel_name@),
        },
{
    let mut k: usize = 0;
    while k < rs.len()
        invariant
            k <= rs@.len(),
            forall|m: int| 0 <= m < k ==> !release_matches(#[trigger] rs@[m], version@, channel_name@),
        decreases rs@.len() - k,
    {
        if crate::text::text_eq(rs[k].version.as_str(), version) && crate::text::text_eq(
            rs[k].channel_name.as_str(),
            channel_name,
        ) {
            return Some(k);
        }
        k = k + 1;
    }
    None
}

impl DropsAccountConfig {
    /// The same account, field by field and game by game.
    pub open spec fn same_as(&self, o: &DropsAccountConfig) -> bool {
        &&& self.id == o.id
        &&& self.games_dir == o.games_dir
        &&& self.url == o.url
        &&& self.username == o.username
        &&& self.session_token == o.session_token
        &&& games_view(self.games@) == games_view(o.games@)
    }

    /// A copy of this account.
    pub fn duplicate(&self) -> (r: DropsAccountConfig)
        ensures
            r.same_as(self),
    {
        DropsAccountConfig {
            id: self.id,
            games_dir: self.games_dir.clone(),
            url: self.url.clone(),
            username: self.username.clone(),
            session_token: SessionToken(self.session_token.0.clone()),
            games: duplicate_games(&self.games),
        }
    }

    /// Records the install state of the release with this version on this
    /// channel of the game with this name-id.
    pub fn update_install_state(
        &mut self,
        game_name_id: &str,
        version: &str,
        channel_name: &str,
        state: ReleaseState,
    ) -> (r: Result<(), InstallStateError>)
        ensures
            install_state_updated(
                games_view(old(self).games@),
                games_view(final(self).games@),
                game_name_id@,
                version@,
                channel_name@,
                state,
                r,
            ),
            final(self).id == old(self).id,
            final(self).games_dir == old(self).games_dir,
            final(self).url == old(self).url,
            final(self).username == old(self).username,
            final(self).session_token == old(self).session_token,
    {
        let ghost gv = games_view(self.games@);
        let g = match find_game(&self.games, game_name_id) {
            Some(g) => g,
            None => {
                return Err(InstallStateError::GameNotFound(String::from_str(game_name_id)));
            },
        };
        assert(first_game(gv, game_name_id@, g as int));
        let ghost rs = gv[g as int].releases;
        let found = find_release(&self.games[g].releases, version, channel_name);
        if found.is_none() {
            proof {
                assert forall|gg: int| first_game(gv, game_name_id@, gg) implies gg == g by {
                    if gg < g {
                    } else if gg > g {
                        assert(gv[g as int].name_id@ == game_name_id@);
                    }
                }
            }
            return Err(
                InstallStateError::ReleaseNotFound {
                    version: String::from_str(version),
                    channel_name: String::from_str(channel_name),
                },
            );
        }
        let k = found.unwrap();
        self.games[g].releases[k].state = state;
        proof {
            let newv = games_view(self.games@);
            assert(newv =~= gv.update(
                g as int,
                GameView {
                    releases: rs.update(k as int, Release { state: state, ..rs[k as int] }),
                    ..gv[g as int]
                },
            )) by {
                assert(self.games@[g as int].releases@ =~= rs.update(
                    k as int,
                    Release { state: state, ..rs[k as int] },
                ));
            }
            assert forall|gg: int| first_game(gv, game_name_id@, gg) implies gg == g by {
                if gg < g {
                } else if gg > g {
                    assert(gv[g as int].name_id@ == game_name_id@);
                }
            }
        }
        Ok(())
    }
}

impl ClientConfig {
    /// `j` is the first account whose id is the active one.
    pub open spec fn is_active_index(&self, j: int) -> bool {
        &&& 0 <= j < self.accounts@.len()
        &&& self.accounts@[j].id == self.active_account
        &&& forall|m: int| 0 <= m < j ==> (#[trigger] self.accounts@[m]).id != self.active_account
    }

    /// The active id names an account.
    pub open spec fn has_active(&self) -> bool {
        exists|j: int| 0 <= j < self.accounts@.len() && (#[trigger] self.accounts@[j]).id
            == self.active_account
    }

    /// The position of the active account.
    pub open spec fn active_index(&self) -> int {
        choose|j: int| self.is_active_index(j)
    }

    /// The active account.
    pub open spec fn active(&self) -> DropsAccountConfig {
        self.accounts@[self.active_index()]
    }

    /// The active id names an account and no account lists a name-id twice.
    pub open spec fn wf(&self) -> bool {
        &&& self.has_active()
        &&& forall|j: int| 0 <= j < self.accounts@.len() ==> (#[trigger] self.accounts@[j]).wf()
    }

    /// `new` is `self` with the active account replaced by `a`.
    pub open spec fn with_active(&self, new: &ClientConfig, a: DropsAccountConfig) -> bool {
        &&& new.active_account == self.active_account
        &&& new.is_active == self.is_active
        &&& new.accounts@ == self.accounts@.update(self.active_index(), a)
    }

    /// The position of the active account, if the active id names one.
    fn find_active(&self) -> (r: Option<usize>)
        ensures
            match r {
                Some(j) => self.is_active_index(j as int) && self.active_index() == j,
                None => !self.has_active(),
            },
    {
        let mut j: usize = 0;
        while j < self.accounts.len()
            invariant
                j <= self.accounts@.len(),
                forall|m: int| 0 <= m < j ==> (#[trigger] self.accounts@[m]).id != self.active_account,
            decreases self.accounts@.len() - j,
        {
            if self.accounts[j].id == self.active_account {
                proof {
                    assert(self.is_active_index(j as int));
                    let c = self.active_index();
                    assert(self.is_active_index(c));
                    if c < j {
                    } else if c > j {
                        assert(self.accounts@[j as int].id == self.active_account);
                    }
                }
                return Some(j);
            }
            j = j + 1;
        }
        None
    }

    /// Makes the first account with this server URL the active one.
    pub fn set_active_account_by_url(&mut self, url: String)
        requires
            exists|j: int| 0 <= j < old(self).accounts@.len() && (#[trigger] old(self).accounts@[j]).url@ == url@,
        ensures
            exists|j: int|
                0 <= j < old(self).accounts@.len() && old(self).accounts@[j].url@ == url@
                    && final(self).active_account == old(self).accounts@[j].id && forall|m: int|
                    0 <= m < j ==> (#[trigger] old(self).accounts@[m]).url@ != url@,
            final(self).accounts == old(self).accounts,
            final(self).is_active == old(self).is_active,
    {
        let mut j: usize = 0;
        while j < self.accounts.len()
            invariant
                j <= self.accounts@.len(),
                *self == *old(self),
                forall|m: int| 0 <= m < j ==> (#[trigger] self.accounts@[m]).url@ != url@,
            decreases self.accounts@.len() - j,
        {
            if self.accounts[j].url == url {
                self.active_account = self.accounts[j].id;
                return;
            }
            j = j + 1;
        }
    }

    /// A copy of the active account, if the active id names one.
    pub fn get_active_account(&self) -> (r: Option<DropsAccountConfig>)
        ensures
            r is None <==> !self.has_active(),
            r matches Some(a) ==> a.same_as(&self.active()),
    {
        match self.find_active() {
            Some(j) => Some(self.accounts[j].duplicate()),
            None => None,
        }
    }

    /// Sets the user name of the active account; the caller persists the
    /// document.
    pub fn set_username_and_save(&mut self, username: &str)
        requires
            old(self).has_active(),
        ensures
            old(self).with_active(
                final(self),
                DropsAccountConfig { username: final(self).active().username, ..old(self).active() },
            ),
            final(self).active().username@ == username@,
    {
        let j = self.find_active().unwrap();
        self.accounts[j].username = String::from_str(username);
        proof { self.lemma_same_active(old(self)); }
    }

    /// The user name of the active account.
    pub fn get_username(&self) -> (r: String)
        requires
            self.has_active(),
        ensures
            r == self.active().username,
    {
        let j = self.find_active().unwrap();
        self.accounts[j].username.clone()
    }

    /// Stores the session credential of the active account.
    pub fn set_session_token(&mut self, token: SessionToken)
        requires
            old(self).has_active(),
        ensures
            old(self).with_active(
                final(self),
                DropsAccountConfig { session_token: token, ..old(self).active() },
            ),
    {
        let j = self.find_active().unwrap();
        self.accounts[j].session_token = token;
    }

    /// Whether the active account holds a non-empty session credential.
    pub fn has_session_token(&self) -> (r: bool)
        requires
            self.has_active(),
        ensures
            r == (self.active().session_token.0@.len() > 0),
    {
        let j = self.find_active().unwrap();
        self.accounts[j].session_token.0.as_str().unicode_len() > 0
    }

    /// The session credential of the active account.
    pub fn get_session_token(&self) -> (r: SessionToken)
        requires
            self.has_active(),
        ensures
            r == self.active().session_token,
    {
        let j = self.find_active().unwrap();
        SessionToken(self.accounts[j].session_token.0.clone())
    }

    /// The install root of the active account.
    pub fn get_games_dir(&self) -> (r: String)
        requires
            self.has_active(),
        ensures
            r == self.active().games_dir,
    {
        let j = self.find_active().unwrap();
        self.accounts[j].games_dir.clone()
    }

    /// A copy of the games of the active account.
    pub fn get_account_games(&self) -> (r: Vec<Game>)
        requires
            self.has_active(),
        ensures
            games_view(r@) == games_view(self.active().games@),
    {
        let j = self.find_active().unwrap();
        duplicate_games(&self.accounts[j].games)
    }

    /// The server URL of the active account.
    pub fn get_drops_url(&self) -> (r: String)
        requires
            self.has_active(),
        ensures
            r == self.active().url,
    {
        let j = self.find_active().unwrap();
        self.accounts[j].url.clone()
    }

    /// Forgets the session credential of the active account; the caller
    /// persists the document.
    pub fn clear_session_token(&mut self)
        requires
            old(self).has_active(),
        ensures
            old(self).with_active(
                final(self),
                DropsAccountConfig { session_token: final(self).active().session_token, ..old(self).active() },
            ),
            final(self).active().session_token.0@.len() == 0,
    {
        let j = self.find_active().unwrap();
        self.accounts[j].session_token = SessionToken(String::new());
        proof { self.lemma_same_active(old(self)); }
    }

    /// Where two documents have the same active id and the same account ids,
    /// the active account sits at the same position in both.
    proof fn lemma_same_active(&self, other: &ClientConfig)
        requires
            other.has_active(),
            self.active_account == other.active_account,
            self.accounts@.len() == other.accounts@.len(),
            forall|m: int| 0 <= m < self.accounts@.len() ==> (#[trigger] self.accounts@[m]).id == other.accounts@[m].id,
        ensures
            self.has_active(),
            self.active_index() == other.active_index(),
    {
        let j = choose|j: int| 0 <= j < other.accounts@.len() && (#[trigger] other.accounts@[j]).id == other.active_account;
        lemma_first_active(other, j);
        let c = other.active_index();
        assert(self.accounts@[c].id == self.active_account);
        assert(self.is_active_index(c));
        let d = self.active_index();
        if d < c {
            assert(other.accounts@[d].id == self.accounts@[d].id);
        } else if d > c {
        }
    }
}

impl DropsAccountConfig {
    /// Whether no two games of the account share a name-id.
    pub fn has_unique_game_ids(&self) -> (r: bool)
        ensures
            r == self.wf(),
    {
        let ghost gv = games_view(self.games@);
        let n = self.games.len();
        let mut i: usize = 0;
        while i < n
            invariant
                n == gv.len(),
                i <= n,
                gv == games_view(self.games@),
                forall|a: int, b: int| 0 <= a < b < n && a < i ==> (#[trigger] gv[a]).name_id@ != (#[trigger] gv[b]).name_id@,
            decreases n - i,
        {
            let mut j: usize = i + 1;
            while j < n
                invariant
                    n == gv.len(),
                    i < n,
                    i + 1 <= j <= n,
                    gv == games_view(self.games@),
                    forall|a: int, b: int| 0 <= a < b < n && a < i ==> (#[trigger] gv[a]).name_id@ != (#[trigger] gv[b]).name_id@,
                    forall|b: int| i < b < j ==> gv[i as int].name_id@ != (#[trigger] gv[b]).name_id@,
                decreases n - j,
            {
                if self.games[i].name_id == self.games[j].name_id {
                    assert(!unique_ids(gv)) by {
                        assert(gv[i as int].name_id@ == gv[j as int].name_id@);
                    }
                    return false;
                }
                j = j + 1;
            }
            i = i + 1;
        }
        true
    }
}

impl ClientConfig {
    /// Whether the active id names an account and no account lists a name-id
    /// twice.
    pub fn is_consistent(&self) -> (r: bool)
        ensures
            r == self.wf(),
    {
        if self.find_active().is_none() {
            return false;
        }
        let mut j: usize = 0;
        while j < self.accounts.len()
            invariant
                j <= self.accounts@.len(),
                forall|m: int| 0 <= m < j ==> (#[trigger] self.accounts@[m]).wf(),
            decreases self.accounts@.len() - j,
        {
            if !self.accounts[j].has_unique_game_ids() {
                return false;
            }
            j = j + 1;
        }
        true
    }

    /// Records the install state of one release of the active account.
    pub fn update_install_state(
        &mut self,
        game_name_id: &str,
        version: &str,
        channel_name: &str,
        state: ReleaseState,
    ) -> (r: Result<(), InstallStateError>)
        requires
            old(self).has_active(),
        ensures
            exists|a: DropsAccountConfig|
                old(self).with_active(final(self), a) && a.id == old(self).active().id
                    && a.games_dir == old(self).active().games_dir && a.url == old(
                    self,
                ).active().url && a.username == old(self).active().username && a.session_token
                    == old(self).active().session_token && install_state_updated(
                    games_view(old(self).active().games@),
                    games_view(a.games@),
                    game_name_id@,
                    version@,
                    channel_name@,
                    state,
                    r,
                ),
    {
        let j = self.find_active().unwrap();
        let r = self.accounts[j].update_install_state(game_name_id, version, channel_name, state);
        assert(old(self).with_active(self, self.accounts@[j as int]));
        r
    }

    /// Merges a freshly fetched catalog into the active account (see
    /// `DropsAccountConfig::handle_game_response`); the caller persists the
    /// document.
    pub fn sync_and_save(&mut self, game_info_response: GetGamesResponse) -> (r: Result<
        (),
        ReconcileError,
    >)
        requires
            old(self).wf(),
            game_info_response.wf(),
        ensures
            r.is_ok(),
            final(self).wf(),
            exists|a: DropsAccountConfig|
                old(self).with_active(final(self), a) && a.id == old(self).active().id
                    && a.games_dir == old(self).active().games_dir && a.url == old(
                    self,
                ).active().url && a.username == old(self).active().username && a.session_token
                    == old(self).active().session_token && games_view(a.games@) == merged_games(
                    games_view(old(self).active().games@),
                    game_info_response.games@,
                ),
    {
        let j = self.find_active().unwrap();
        let r = self.accounts[j].handle_game_response(game_info_response);
        assert(old(self).with_active(self, self.accounts@[j as int]));
        proof {
            self.lemma_same_active(old(self));
            assert forall|m: int| 0 <= m < self.accounts@.len() implies (#[trigger] self.accounts@[m]).wf() by {
                if m != j {
                    assert(self.accounts@[m] == old(self).accounts@[m]);
                }
            }
        }
        r
    }
}

impl ClientConfig {
    /// Replaces the first stored account with the id of `account` by it;
    /// the caller persists the document.
    pub fn patch_account_and_save(&mut self, account: DropsAccountConfig)
        requires
            exists|j: int|
                0 <= j < old(self).accounts@.len() && (#[trigger] old(self).accounts@[j]).id
                    == account.id,
        ensures
            exists|j: int|
                0 <= j < old(self).accounts@.len() && old(self).accounts@[j].id == account.id
                    && (forall|m: int| 0 <= m < j ==> (#[trigger] old(self).accounts@[m]).id != account.id)
                    && final(self).accounts@ == old(self).accounts@.update(j, account),
            final(self).active_account == old(self).active_account,
            final(self).is_active == old(self).is_active,
    {
        let mut j: usize = 0;
        while j < self.accounts.len()
            invariant
                j <= self.accounts@.len(),
                *self == *old(self),
                forall|m: int| 0 <= m < j ==> (#[trigger] self.accounts@[m]).id != account.id,
            decreases self.accounts@.len() - j,
        {
            if self.accounts[j].id == account.id {
                self.accounts.set(j, account);
                return;
            }
            j = j + 1;
        }
    }

    /// Records a successful login on the active account: the user name it
    /// was made with and the credential it returned; the caller persists the
    /// document.
    pub fn apply_login(&mut self, username: &str, token: SessionToken)
        requires
            old(self).has_active(),
        ensures
            old(self).with_active(
                final(self),
                DropsAccountConfig {
                    username: final(self).active().username,
                    session_token: token,
                    ..old(self).active()
                },
            ),
            final(self).active().username@ == username@,
    {
        let ghost t = token;
        let j = self.find_active().unwrap();
        self.accounts[j].username = String::from_str(username);
        self.accounts[j].session_token = token;
        proof {
            self.lemma_same_active(old(self));
            assert(self.accounts@ =~= old(self).accounts@.update(
                j as int,
                DropsAccountConfig {
                    username: self.accounts@[j as int].username,
                    session_token: t,
                    ..old(self).accounts@[j as int]
                },
            ));
        }
    }
}

/// The current record of the game keyed like `selected`, if the list still
/// holds it.
pub fn refreshed_game(games: &Vec<Game>, selected: &Game) -> (r: Option<Game>)
    ensures
        r is None <==> !has_game(games_view(games@), selected.name_id@),
        r matches Some(g) ==> exists|j: int|
            first_game(games_view(games@), selected.name_id@, j) && g@ == games@[j]@,
{
    match find_game(games, selected.name_id.as_str()) {
        Some(j) => Some(games[j].duplicate()),
        None => None,
    }
}

/// An active id that names an account names a first one.
proof fn lemma_first_active(cfg: &ClientConfig, j: int)
    requires
        0 <= j < cfg.accounts@.len(),
        cfg.accounts@[j].id == cfg.active_account,
    ensures
        cfg.is_active_index(cfg.active_index()),
    decreases j,
{
    if cfg.is_active_index(j) {
    } else {
        let m = choose|m: int| 0 <= m < j && (#[trigger] cfg.accounts@[m]).id == cfg.active_account;
        lemma_first_active(cfg, m);
    }
}

} // verus!
