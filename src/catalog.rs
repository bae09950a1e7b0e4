use vstd::prelude::*;

verus! {

/// One release as the catalog server describes it.
#[derive(Debug, Clone)]
pub struct ReleaseInfoResponse {
    pub channel: String,
    pub version: String,
    pub description: String,
    /// Release time, in milliseconds since the Unix epoch.
    pub release_date: i64,
    pub executable_path: String,
    pub size_bytes: u64,
}

/// One game as the catalog server describes it.
#[derive(Debug, Clone)]
pub struct GameInfoResponse {
    pub name: String,
    pub name_id: String,
    pub description: String,
    pub author: String,
    pub default_channel: Option<String>,
    pub releases: Vec<ReleaseInfoResponse>,
}

/// The catalog server's answer to a request for the account's games.
#[derive(Debug, Clone)]
pub struct GetGamesResponse {
    pub games: Vec<GameInfoResponse>,
}

/// Whether some entry of `c` is keyed by `id`.
pub open spec fn catalog_has(c: Seq<GameInfoResponse>, id: Seq<char>) -> bool {
    exists|j: int| 0 <= j < c.len() && (#[trigger] c[j]).name_id@ == id
}

impl GetGamesResponse {
    /// Each game of the catalog is listed under its own name-id.
    pub open spec fn wf(&self) -> bool {
        forall|i: int, j: int|
            0 <= i < j < self.games@.len() ==> (#[trigger] self.games@[i]).name_id@
                != (#[trigger] self.games@[j]).name_id@
    }
}

impl GetGamesResponse {
    /// Whether each game of the catalog is listed under its own name-id.
    pub fn has_unique_ids(&self) -> (r: bool)
        ensures
            r == self.wf(),
    {
        let n = self.games.len();
        let mut i: usize = 0;
        while i < n
            invariant
                n == self.games@.len(),
                i <= n,
                forall|a: int, b: int|
                    0 <= a < b < n && a < i ==> (#[trigger] self.games@[a]).name_id@
                        != (#[trigger] self.games@[b]).name_id@,
            decreases n - i,
        {
            let mut j: usize = i + 1;
            while j < n
                invariant
                    n == self.games@.len(),
                    i < n,
                    i + 1 <= j <= n,
                    forall|a: int, b: int|
                        0 <= a < b < n && a < i ==> (#[trigger] self.games@[a]).name_id@
                            != (#[trigger] self.games@[b]).name_id@,
                    forall|b: int| i < b < j ==> self.games@[i as int].name_id@ != (#[trigger] self.games@[b]).name_id@,
                decreases n - j,
            {
                if self.games[i].name_id == self.games[j].name_id {
                    return false;
                }
                j = j + 1;
            }
            i = i + 1;
        }
        true
    }
}

} // verus!
