use vstd::prelude::*;

use crate::archive::{is_zip_archive, parse_archive, MemoryArchive};
use crate::config::{
    games_view, install_state_updated, ClientConfig, DropsAccountConfig, Game, InstallStateError,
    Release, ReleaseState, SessionToken,
};

verus! {

/// The release that a finished download installed.
#[derive(Debug, Clone)]
pub struct InstalledRelease {
    pub game_name_id: String,
    pub version: String,
    pub channel_name: String,
}

/// Why a download or its extraction failed.
#[derive(Debug, Clone)]
pub enum DownloadError {
    /// The HTTP request failed; the message says how.
    RequestFailed(String),
    /// The server answered with no bytes at all.
    EmptyResponse,
    /// The bytes received are not a readable zip archive.
    ArchiveError(String),
    /// Writing the extracted files failed.
    IoError(String),
}

impl DownloadError {
    /// A copy of this error.
    pub fn duplicate(&self) -> (r: DownloadError)
        ensures
            r == *self,
    {
        match self {
            DownloadError::RequestFailed(m) => DownloadError::RequestFailed(m.clone()),
            DownloadError::EmptyResponse => DownloadError::EmptyResponse,
            DownloadError::ArchiveError(m) => DownloadError::ArchiveError(m.clone()),
            DownloadError::IoError(m) => DownloadError::IoError(m.clone()),
        }
    }
}

/// An event of a download pipeline.
#[derive(Debug, Clone)]
pub enum DownloadProgress {
    /// Bytes are arriving; `percent` is `100 * received / expected`, rounded down.
    Downloading { percent: u128 },
    /// The release is extracted; this is the last event of the pipeline.
    Finished { release: InstalledRelease },
}

/// `100 * received / total`, rounded down; a download announced as empty is
/// complete.
pub open spec fn percent_of(received: int, total: int) -> int {
    if total == 0 {
        100
    } else {
        (100 * received) / total
    }
}

/// The progress of a download, in whole percent of the announced size.
pub fn progress_percent(received: u64, total: u64) -> (r: u128)
    ensures
        r as int == percent_of(received as int, total as int),
{
    if total == 0 {
        100
    } else {
        assert(100 * (received as int) <= 100 * 0xffff_ffff_ffff_ffffint) by (nonlinear_arith)
            requires received <= 0xffff_ffff_ffff_ffffu64;
        (received as u128 * 100) / (total as u128)
    }
}

/// Progress never goes backwards: more bytes received give at least the
/// same percentage.
pub proof fn lemma_progress_monotonic(a: int, b: int, total: int)
    requires
        0 <= a <= b,
        0 <= total,
    ensures
        percent_of(a, total) <= percent_of(b, total),
{
    if total > 0 {
        assert((100 * a) / total <= (100 * b) / total) by (nonlinear_arith)
            requires 0 <= a <= b, total > 0;
    }
}

/// A download that received no more than its announced size reports at
/// most one hundred percent.
pub proof fn lemma_progress_bounded(received: int, total: int)
    requires
        0 <= received <= total,
    ensures
        0 <= percent_of(received, total) <= 100,
{
    if total > 0 {
        assert(0 <= (100 * received) / total <= 100) by (nonlinear_arith)
            requires 0 <= received <= total, total > 0;
    }
}

/// How many bytes arrived after the first `i` chunks of the given lengths.
pub open spec fn received_after(chunk_lens: Seq<nat>, i: int) -> int
    decreases i,
{
    if i <= 0 || chunk_lens.len() == 0 {
        0
    } else if i > chunk_lens.len() {
        received_after(chunk_lens, chunk_lens.len() as int)
    } else {
        received_after(chunk_lens, i - 1) + chunk_lens[i - 1]
    }
}

/// The percentage reported after each chunk of a download that arrives in
/// chunks of the given lengths; the opening report of zero comes first.
pub open spec fn reported_percents(total: int, chunk_lens: Seq<nat>) -> Seq<int> {
    Seq::new(
        chunk_lens.len() + 1,
        |i: int|
            if i == 0 {
                0
            } else {
                percent_of(received_after(chunk_lens, i), total)
            },
    )
}

proof fn lemma_received_grows(chunk_lens: Seq<nat>, i: int, j: int)
    requires
        0 <= i <= j <= chunk_lens.len(),
    ensures
        0 <= received_after(chunk_lens, i) <= received_after(chunk_lens, j),
    decreases j,
{
    if j > i {
        lemma_received_grows(chunk_lens, i, j - 1);
    } else if i > 0 {
        lemma_received_grows(chunk_lens, 0, i - 1);
    }
}

/// The percentages that a download reports never go down, and, where no
/// more bytes arrive than the catalog announced, none exceeds one hundred.
pub proof fn lemma_download_progress(total: int, chunk_lens: Seq<nat>)
    requires
        0 <= total,
    ensures
        forall|i: int, j: int|
            0 <= i <= j < reported_percents(total, chunk_lens).len() ==> #[trigger] reported_percents(
                total,
                chunk_lens,
            )[i] <= #[trigger] reported_percents(total, chunk_lens)[j],
        received_after(chunk_lens, chunk_lens.len() as int) <= total ==> forall|i: int|
            0 <= i < reported_percents(total, chunk_lens).len() ==> 0 <= #[trigger] reported_percents(
                total,
                chunk_lens,
            )[i] <= 100,
{
    let p = reported_percents(total, chunk_lens);
    assert forall|i: int, j: int| 0 <= i <= j < p.len() implies #[trigger] p[i] <= #[trigger] p[j] by {
        lemma_received_grows(chunk_lens, i, j);
        lemma_received_grows(chunk_lens, 0, i);
        if i == 0 {
            if total > 0 {
                let r = received_after(chunk_lens, j);
                assert((100 * r) / total >= 0) by (nonlinear_arith)
                    requires r >= 0, total > 0;
            }
        } else {
            lemma_progress_monotonic(received_after(chunk_lens, i), received_after(chunk_lens, j), total);
        }
    }
    if received_after(chunk_lens, chunk_lens.len() as int) <= total {
        assert forall|i: int| 0 <= i < p.len() implies 0 <= #[trigger] p[i] <= 100 by {
            if i > 0 {
                lemma_received_grows(chunk_lens, i, chunk_lens.len() as int);
                lemma_received_grows(chunk_lens, 0, i);
                lemma_progress_bounded(received_after(chunk_lens, i), total);
            }
        }
    }
}

/// The bytes of a release archive as they arrive.
pub struct DownloadTracker {
    /// The size that the catalog announced for the archive.
    pub total: u64,
    /// How many bytes arrived so far.
    pub received: u64,
    /// The bytes that arrived so far, in order.
    pub buffer: Vec<u8>,
}

impl DownloadTracker {
    /// The count of received bytes is the length of the buffer.
    pub open spec fn wf(&self) -> bool {
        self.received as int == self.buffer@.len()
    }

    /// A tracker for an archive of the announced size that has received nothing.
    pub fn new(total: u64) -> (r: DownloadTracker)
        ensures
            r.wf(),
            r.total == total,
            r.received == 0,
    {
        DownloadTracker { total, received: 0, buffer: Vec::new() }
    }

    /// The event that opens every download, before any byte arrives.
    pub fn started(&self) -> (r: DownloadProgress)
        ensures
            r == (DownloadProgress::Downloading { percent: 0 }),
    {
        DownloadProgress::Downloading { percent: 0 }
    }

    /// Appends a chunk of the response and reports the new progress.
    pub fn receive_chunk(&mut self, chunk: &[u8]) -> (r: DownloadProgress)
        requires
            old(self).wf(),
            old(self).received + chunk@.len() <= u64::MAX,
        ensures
            final(self).wf(),
            final(self).total == old(self).total,
            final(self).buffer@ == old(self).buffer@ + chunk@,
            final(self).received == old(self).received + chunk@.len(),
            r == (DownloadProgress::Downloading {
                percent: percent_of(final(self).received as int, final(self).total as int) as u128,
            }),
    {
        let ghost start = self.buffer@;
        let mut i: usize = 0;
        while i < chunk.len()
            invariant
                i <= chunk@.len(),
                self.total == old(self).total,
                self.received == old(self).received,
                self.buffer@ == start + chunk@.subrange(0, i as int),
            decreases chunk@.len() - i,
        {
            self.buffer.push(chunk[i]);
            i = i + 1;
            assert(self.buffer@ =~= start + chunk@.subrange(0, i as int));
        }
        assert(chunk@.subrange(0, i as int) =~= chunk@);
        self.received = self.received + chunk.len() as u64;
        DownloadProgress::Downloading { percent: progress_percent(self.received, self.total) }
    }

    /// Ends the response: an empty one fails with `EmptyResponse`; otherwise
    /// the buffer is read as a zip archive, and fails with `ArchiveError`
    /// where it holds none.
    pub fn finish(self) -> (r: Result<MemoryArchive, DownloadError>)
        requires
            self.wf(),
        ensures
            self.received == 0 ==> r matches Err(DownloadError::EmptyResponse),
            self.received > 0 ==> (r.is_ok() <==> is_zip_archive(self.buffer@)),
            self.received > 0 && !is_zip_archive(self.buffer@) ==> r matches Err(
                DownloadError::ArchiveError(_),
            ),
    {
        if self.received == 0 {
            return Err(DownloadError::EmptyResponse);
        }
        match parse_archive(self.buffer) {
            Ok(archive) => Ok(archive),
            Err(message) => Err(DownloadError::ArchiveError(message)),
        }
    }
}

/// What is needed to download and install one release.
#[derive(Debug, Clone)]
pub struct DownloadRequest {
    pub name_id: String,
    pub game_dir: String,
    pub drops_url: String,
    pub session_token: SessionToken,
    pub version: String,
    pub channel_name: String,
    pub size_bytes: u64,
}

impl DownloadRequest {
    /// The request for `release` of `game`, from the active account of `config`.
    pub fn build(release: &Release, game: &Game, config: &ClientConfig) -> (r: DownloadRequest)
        requires
            config.has_active(),
        ensures
            r.name_id == game.name_id,
            r.game_dir == config.active().games_dir,
            r.drops_url == config.active().url,
            r.session_token == config.active().session_token,
            r.version == release.version,
            r.channel_name == release.channel_name,
            r.size_bytes == release.size_bytes,
    {
        DownloadRequest {
            name_id: game.name_id.clone(),
            game_dir: config.get_games_dir(),
            drops_url: config.get_drops_url(),
            session_token: config.get_session_token(),
            version: release.version.clone(),
            channel_name: release.channel_name.clone(),
            size_bytes: release.size_bytes,
        }
    }
}

/// Where a download task stands.
#[derive(Debug, Clone)]
pub enum DownloadState {
    Downloading { progress_percentage: u128 },
    Errored(DownloadError),
}

/// One download task: at most one exists per game.
#[derive(Debug, Clone)]
pub struct Download {
    pub game_name_id: String,
    pub game_dir: String,
    pub url: String,
    pub session_token: SessionToken,
    pub version: String,
    pub channel_name: String,
    pub size_bytes: u64,
    pub state: DownloadState,
}

/// The task that a request starts: downloading, at zero percent.
pub open spec fn task_for(request: DownloadRequest) -> Download {
    Download {
        game_name_id: request.name_id,
        game_dir: request.game_dir,
        url: request.drops_url,
        session_token: request.session_token,
        version: request.version,
        channel_name: request.channel_name,
        size_bytes: request.size_bytes,
        state: DownloadState::Downloading { progress_percentage: 0 },
    }
}

/// The address of a release archive on the server.
pub open spec fn release_url(
    base: Seq<char>,
    game: Seq<char>,
    platform: Seq<char>,
    channel: Seq<char>,
    version: Seq<char>,
) -> Seq<char> {
    base + "/releases/"@ + game + "/"@ + platform + "/"@ + channel + "/"@ + version
}

impl Download {
    /// A new task for `request`.
    pub fn new(request: &DownloadRequest) -> (r: Download)
        ensures
            r == task_for(*request),
    {
        Download {
            game_name_id: request.name_id.clone(),
            game_dir: request.game_dir.clone(),
            url: request.drops_url.clone(),
            session_token: SessionToken(request.session_token.0.clone()),
            version: request.version.clone(),
            channel_name: request.channel_name.clone(),
            state: DownloadState::Downloading { progress_percentage: 0 },
            size_bytes: request.size_bytes,
        }
    }

    /// The address of the archive of this download for the given platform.
    pub fn release_url(&self, platform: &str) -> (r: String)
        ensures
            r@ == release_url(
                self.url@,
                self.game_name_id@,
                platform@,
                self.channel_name@,
                self.version@,
            ),
    {
        let mut u = self.url.clone();
        u.append("/releases/");
        u.append(self.game_name_id.as_str());
        u.append("/");
        u.append(platform);
        u.append("/");
        u.append(self.channel_name.as_str());
        u.append("/");
        u.append(self.version.as_str());
        u
    }

    /// The record of what this download installs once it finishes.
    pub fn installed_release(&self) -> (r: InstalledRelease)
        ensures
            r.game_name_id == self.game_name_id,
            r.version == self.version,
            r.channel_name == self.channel_name,
    {
        InstalledRelease {
            game_name_id: self.game_name_id.clone(),
            version: self.version.clone(),
            channel_name: self.channel_name.clone(),
        }
    }
}

/// Whether some task of `ds` is for the game `id`.
pub open spec fn has_task(ds: Seq<Download>, id: Seq<char>) -> bool {
    exists|i: int| 0 <= i < ds.len() && (#[trigger] ds[i]).game_name_id@ == id
}

/// The tasks of `ds` that are not for the game `id`, in order.
pub open spec fn without_task(ds: Seq<Download>, id: Seq<char>) -> Seq<Download>
    decreases ds.len(),
{
    if ds.len() == 0 {
        ds
    } else {
        let prev = without_task(ds.drop_last(), id);
        if ds.last().game_name_id@ == id {
            prev
        } else {
            prev.push(ds.last())
        }
    }
}

/// `d` with its state replaced where it is the task for the game `id`.
pub open spec fn restated(d: Download, id: Seq<char>, state: DownloadState) -> Download {
    if d.game_name_id@ == id {
        Download { state: state, ..d }
    } else {
        d
    }
}

/// The download tasks that are in flight or failed.
#[derive(Debug, Clone)]
pub struct DownloadMessageHandler {
    pub downloads: Vec<Download>,
}

impl DownloadMessageHandler {
    /// No two tasks are for the same game.
    pub open spec fn wf(&self) -> bool {
        forall|i: int, j: int|
            0 <= i < j < self.downloads@.len() ==> (#[trigger] self.downloads@[i]).game_name_id@
                != (#[trigger] self.downloads@[j]).game_name_id@
    }

    /// No task at all.
    pub fn new() -> (r: DownloadMessageHandler)
        ensures
            r.wf(),
            r.downloads@.len() == 0,
    {
        DownloadMessageHandler { downloads: Vec::new() }
    }

    /// Whether a task for the game `id` exists.
    pub fn is_downloading(&self, id: &str) -> (r: bool)
        ensures
            r == has_task(self.downloads@, id@),
    {
        let mut i: usize = 0;
        while i < self.downloads.len()
            invariant
                i <= self.downloads@.len(),
                forall|m: int| 0 <= m < i ==> (#[trigger] self.downloads@[m]).game_name_id@ != id@,
            decreases self.downloads@.len() - i,
        {
            if crate::text::text_eq(self.downloads[i].game_name_id.as_str(), id) {
                return true;
            }
            i = i + 1;
        }
        false
    }

    /// Starts a task for `request`, unless one for the same game exists, in
    /// which case nothing changes; returns whether a task was started.
    pub fn start(&mut self, request: &DownloadRequest) -> (r: bool)
        requires
            old(self).wf(),
        ensures
            final(self).wf(),
            r == !has_task(old(self).downloads@, request.name_id@),
            r ==> final(self).downloads@ == old(self).downloads@.push(task_for(*request)),
            !r ==> final(self).downloads@ == old(self).downloads@,
    {
        if self.is_downloading(request.name_id.as_str()) {
            return false;
        }
        self.downloads.push(Download::new(request));
        proof {
            let ds = self.downloads@;
            assert forall|i: int, j: int| 0 <= i < j < ds.len() implies (#[trigger] ds[i]).game_name_id@
                != (#[trigger] ds[j]).game_name_id@ by {
                if j == ds.len() - 1 {
                    assert(ds[i] == old(self).downloads@[i]);
                } else {
                    assert(ds[i] == old(self).downloads@[i]);
                    assert(ds[j] == old(self).downloads@[j]);
                }
            }
        }
        true
    }

    /// Sets the state of the task for the game `id`, if there is one.
    fn set_state(&mut self, id: &str, state: DownloadState)
        requires
            old(self).wf(),
        ensures
            final(self).wf(),
            final(self).downloads@ == old(self).downloads@.map_values(
                |d: Download| restated(d, id@, state),
            ),
    {
        let ghost start = self.downloads@;
        let n = self.downloads.len();
        let mut i: usize = 0;
        let mut state = Some(state);
        let ghost st = state.unwrap();
        while i < n
            invariant
                n == start.len() == self.downloads@.len(),
                i <= n,
                state is Some ==> state == Some(st),
                state is None ==> exists|m: int| 0 <= m < i && (#[trigger] start[m]).game_name_id@ == id@,
                forall|m: int| 0 <= m < i ==> (#[trigger] self.downloads@[m]) == restated(start[m], id@, st),
                forall|m: int| i <= m < n ==> (#[trigger] self.downloads@[m]) == start[m],
                forall|a: int, b: int|
                    0 <= a < b < n ==> (#[trigger] start[a]).game_name_id@ != (#[trigger] start[b]).game_name_id@,
            decreases n - i,
        {
            if crate::text::text_eq(self.downloads[i].game_name_id.as_str(), id) {
                match state.take() {
                    Some(s) => {
                        self.downloads[i].state = s;
                    },
                    None => {
                        proof {
                            let m = choose|m: int| 0 <= m < i && (#[trigger] start[m]).game_name_id@ == id@;
                            assert(start[m].game_name_id@ == start[i as int].game_name_id@);
                        }
                    },
                }
            }
            i = i + 1;
        }
        proof {
            assert(self.downloads@ =~= start.map_values(|d: Download| restated(d, id@, st)));
            let ds = self.downloads@;
            assert forall|a: int, b: int| 0 <= a < b < ds.len() implies (#[trigger] ds[a]).game_name_id@
                != (#[trigger] ds[b]).game_name_id@ by {
                assert(ds[a].game_name_id == start[a].game_name_id);
                assert(ds[b].game_name_id == start[b].game_name_id);
            }
        }
    }

    /// Records the progress that the task for the game `id` reported.
    pub fn progress(&mut self, id: &str, percent: u128)
        requires
            old(self).wf(),
        ensures
            final(self).wf(),
            final(self).downloads@ == old(self).downloads@.map_values(
                |d: Download| restated(d, id@, DownloadState::Downloading { progress_percentage: percent }),
            ),
    {
        self.set_state(id, DownloadState::Downloading { progress_percentage: percent });
    }

    /// Marks the task for the game `id` as failed with `error`.
    pub fn fail(&mut self, id: &str, error: DownloadError)
        requires
            old(self).wf(),
        ensures
            final(self).wf(),
            final(self).downloads@ == old(self).downloads@.map_values(
                |d: Download| restated(d, id@, DownloadState::Errored(error)),
            ),
    {
        self.set_state(id, DownloadState::Errored(error));
    }

    /// Drops the task for the game `id`, if there is one.
    pub fn dismiss(&mut self, id: &str)
        requires
            old(self).wf(),
        ensures
            final(self).wf(),
            final(self).downloads@ == without_task(old(self).downloads@, id@),
    {
        let ghost start = self.downloads@;
        let mut kept: Vec<Download> = Vec::new();
        let mut i: usize = 0;
        assert(start.take(0) =~= Seq::<Download>::empty());
        while i < self.downloads.len()
            invariant
                start == self.downloads@,
                i <= start.len(),
                kept@ == without_task(start.take(i as int), id@),
            decreases start.len() - i,
        {
            let keep = !crate::text::text_eq(self.downloads[i].game_name_id.as_str(), id);
            proof {
                assert(start.take(i + 1).drop_last() =~= start.take(i as int));
            }
            if keep {
                kept.push(Download::copy_of(&self.downloads[i]));
            }
            i = i + 1;
        }
        assert(start.take(i as int) =~= start);
        self.downloads = kept;
        proof { lemma_without_task_unique(start, id@); }
    }

    /// Records that the task for the game `id` installed `release`: marks the
    /// release as installed in the active account of `config` and drops the
    /// task. The task is dropped even where the release cannot be found.
    pub fn finish(&mut self, id: &str, release: &InstalledRelease, config: &mut ClientConfig) -> (r:
        Result<(), InstallStateError>)
        requires
            old(self).wf(),
            old(config).has_active(),
        ensures
            final(self).wf(),
            final(self).downloads@ == without_task(old(self).downloads@, id@),
            exists|a: DropsAccountConfig|
                old(config).with_active(final(config), a) && a.id == old(config).active().id
                    && a.games_dir == old(config).active().games_dir && a.url == old(
                    config,
                ).active().url && a.username == old(config).active().username
                    && a.session_token == old(config).active().session_token
                    && install_state_updated(
                    games_view(old(config).active().games@),
                    games_view(a.games@),
                    release.game_name_id@,
                    release.version@,
                    release.channel_name@,
                    ReleaseState::Installed,
                    r,
                ),
    {
        let r = config.update_install_state(
            release.game_name_id.as_str(),
            release.version.as_str(),
            release.channel_name.as_str(),
            ReleaseState::Installed,
        );
        self.dismiss(id);
        r
    }
}

impl Download {
    /// A copy of this download.
    pub fn copy_of(d: &Download) -> (r: Download)
        ensures
            r == *d,
    {
        Download {
            game_name_id: d.game_name_id.clone(),
            game_dir: d.game_dir.clone(),
            url: d.url.clone(),
            session_token: SessionToken(d.session_token.0.clone()),
            version: d.version.clone(),
            channel_name: d.channel_name.clone(),
            size_bytes: d.size_bytes,
            state: match &d.state {
                DownloadState::Downloading { progress_percentage } => DownloadState::Downloading {
                    progress_percentage: *progress_percentage,
                },
                DownloadState::Errored(e) => DownloadState::Errored(e.duplicate()),
            },
        }
    }
}

/// Dropping a game's task from a list without repeated games keeps the list
/// free of repetitions and of that game.
proof fn lemma_without_task_unique(ds: Seq<Download>, id: Seq<char>)
    requires
        forall|a: int, b: int|
            0 <= a < b < ds.len() ==> (#[trigger] ds[a]).game_name_id@ != (#[trigger] ds[b]).game_name_id@,
    ensures
        forall|a: int, b: int|
            0 <= a < b < without_task(ds, id).len() ==> (#[trigger] without_task(ds, id)[a]).game_name_id@
                != (#[trigger] without_task(ds, id)[b]).game_name_id@,
        forall|a: int| 0 <= a < without_task(ds, id).len() ==> exists|m: int| 0 <= m < ds.len() && (#[trigger] without_task(ds, id)[a]) == ds[m],
        !has_task(without_task(ds, id), id),
    decreases ds.len(),
{
    if ds.len() > 0 {
        let prev = ds.drop_last();
        assert forall|a: int, b: int| 0 <= a < b < prev.len() implies (#[trigger] prev[a]).game_name_id@
            != (#[trigger] prev[b]).game_name_id@ by {
            assert(prev[a] == ds[a]);
            assert(prev[b] == ds[b]);
        }
        lemma_without_task_unique(prev, id);
        let w0 = without_task(prev, id);
        let w = without_task(ds, id);
        assert forall|a: int| 0 <= a < w.len() implies exists|m: int| 0 <= m < ds.len() && (#[trigger] w[a]) == ds[m] by {
            if a < w0.len() {
                assert(w[a] == w0[a]);
                let m = choose|m: int| 0 <= m < prev.len() && (#[trigger] w0[a]) == prev[m];
                assert(prev[m] == ds[m]);
            } else {
                assert(w[a] == ds[ds.len() - 1]);
            }
        }
        if ds.last().game_name_id@ != id {
            assert forall|a: int, b: int| 0 <= a < b < w.len() implies (#[trigger] w[a]).game_name_id@
                != (#[trigger] w[b]).game_name_id@ by {
                if b == w.len() - 1 {
                    assert(w[a] == w0[a]);
                    let m = choose|m: int| 0 <= m < prev.len() && (#[trigger] w0[a]) == prev[m];
                    assert(prev[m] == ds[m]);
                } else {
                    assert(w[a] == w0[a]);
                    assert(w[b] == w0[b]);
                }
            }
            assert forall|a: int| 0 <= a < w.len() implies (#[trigger] w[a]).game_name_id@ != id by {
                if a < w0.len() {
                    assert(w[a] == w0[a]);
                }
            }
        }
    }
}

} // verus!
