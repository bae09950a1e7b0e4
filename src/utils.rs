use vstd::prelude::*;

use crate::config::{Release, ReleaseState};

verus! {

#[verifier::external_type_specification]
#[verifier::external_body]
pub struct ExPathBuf(std::path::PathBuf);

/// Relies on std::path::is_separator: whether `c` separates path components
/// on the platform the library was built for.
#[verifier::external_body]
fn is_path_separator(c: char) -> (r: bool) {
    std::path::is_separator(c)
}

/// The platform name that the catalog server uses for a machine on which a
/// backslash does, or does not, separate path components.
pub fn platform_name(backslash_separates: bool) -> (r: &'static str)
    ensures
        backslash_separates ==> r@ == "windows"@,
        !backslash_separates ==> r@ == "linux"@,
{
    if backslash_separates {
        "windows"
    } else {
        "linux"
    }
}

/// The platform name that the catalog server uses for the machine this
/// library was built for.
pub fn default_platform() -> (r: &'static str)
    ensures
        r@ == "windows"@ || r@ == "linux"@,
{
    platform_name(is_path_separator('\\'))
}

/// Whether release `r` is on `channel` and in `state`, where they are given.
pub open spec fn release_selected(r: Release, channel: Option<Seq<char>>, state: Option<ReleaseState>) -> bool {
    &&& match channel {
        Some(c) => r.channel_name@ == c,
        None => true,
    }
    &&& match state {
        Some(s) => r.state == s,
        None => true,
    }
}

/// `i` is the newest selected release of `rs`, the last one among those
/// released at the same newest time.
pub open spec fn is_newest(rs: Seq<Release>, channel: Option<Seq<char>>, state: Option<ReleaseState>, i: int) -> bool {
    &&& 0 <= i < rs.len()
    &&& release_selected(rs[i], channel, state)
    &&& forall|j: int|
        0 <= j < rs.len() && release_selected(#[trigger] rs[j], channel, state) ==> rs[j].release_date
            <= rs[i].release_date
    &&& forall|j: int|
        i < j < rs.len() && release_selected(#[trigger] rs[j], channel, state) ==> rs[j].release_date
            < rs[i].release_date
}

/// The text of an optional string.
pub open spec fn opt_text(s: Option<&str>) -> Option<Seq<char>> {
    match s {
        Some(c) => Some(c@),
        None => None,
    }
}

/// The newest selected release of `rs`, if any is selected.
pub open spec fn newest_of(rs: Seq<Release>, channel: Option<Seq<char>>, state: Option<ReleaseState>) -> Option<Release> {
    if exists|i: int| is_newest(rs, channel, state, i) {
        Some(rs[choose|i: int| is_newest(rs, channel, state, i)])
    } else {
        None
    }
}

/// At most one release is the newest.
proof fn lemma_newest_unique(rs: Seq<Release>, channel: Option<Seq<char>>, state: Option<ReleaseState>, i: int, j: int)
    requires
        is_newest(rs, channel, state, i),
        is_newest(rs, channel, state, j),
    ensures
        i == j,
{
    if i < j {
        assert(rs[j].release_date < rs[i].release_date);
    } else if j < i {
        assert(rs[i].release_date < rs[j].release_date);
    }
}

/// The newest release of `releases` on `channel` and in `state`, where they
/// are given; of several released at the same time, the last listed.
pub fn newest_release_by_state(
    releases: &[Release],
    channel: Option<&str>,
    state: Option<ReleaseState>,
) -> (r: Option<Release>)
    ensures
        r is None <==> forall|j: int|
            0 <= j < releases@.len() ==> !release_selected(#[trigger] releases@[j], opt_text(channel), state),
        r == newest_of(releases@, opt_text(channel), state),
{
    let ghost ch = opt_text(channel);
    let mut best: Option<usize> = None;
    let mut i: usize = 0;
    while i < releases.len()
        invariant
            i <= releases@.len(),
            ch == opt_text(channel),
            match best {
                Some(b) => is_newest(releases@.take(i as int), ch, state, b as int),
                None => forall|j: int| 0 <= j < i ==> !release_selected(#[trigger] releases@[j], ch, state),
            },
        decreases releases@.len() - i,
    {
        let r = &releases[i];
        let on_channel = match channel {
            Some(c) => crate::text::text_eq(r.channel_name.as_str(), c),
            None => true,
        };
        let in_state = match state {
            Some(s) => r.state == s,
            None => true,
        };
        assert(on_channel && in_state <==> release_selected(releases@[i as int], ch, state));
        let ghost prefix = releases@.take(i as int);
        let ghost next = releases@.take(i + 1);
        assert(forall|j: int| 0 <= j < i ==> next[j] == #[trigger] prefix[j]);
        assert(next[i as int] == releases@[i as int]);
        if on_channel && in_state {
            match best {
                Some(b) => {
                    if releases[b].release_date <= r.release_date {
                        best = Some(i);
                        assert(is_newest(next, ch, state, i as int)) by {
                            assert forall|j: int|
                                0 <= j < next.len() && release_selected(#[trigger] next[j], ch, state) implies next[j].release_date
                                    <= next[i as int].release_date by {
                                if j < i {
                                    assert(prefix[j] == next[j]);
                                }
                            }
                        }
                    } else {
                        assert(is_newest(next, ch, state, b as int)) by {
                            assert forall|j: int|
                                0 <= j < next.len() && release_selected(#[trigger] next[j], ch, state) implies next[j].release_date
                                    <= next[b as int].release_date by {
                                if j < i {
                                    assert(prefix[j] == next[j]);
                                }
                            }
                            assert forall|j: int|
                                b < j < next.len() && release_selected(#[trigger] next[j], ch, state) implies next[j].release_date
                                    < next[b as int].release_date by {
                                if j < i {
                                    assert(prefix[j] == next[j]);
                                }
                            }
                        }
                    }
                },
                None => {
                    best = Some(i);
                },
            }
        } else {
            match best {
                Some(b) => {
                    assert(is_newest(next, ch, state, b as int)) by {
                        assert forall|j: int|
                            0 <= j < next.len() && release_selected(#[trigger] next[j], ch, state) implies next[j].release_date
                                <= next[b as int].release_date by {
                            if j < i {
                                assert(prefix[j] == next[j]);
                            }
                        }
                        assert forall|j: int|
                            b < j < next.len() && release_selected(#[trigger] next[j], ch, state) implies next[j].release_date
                                < next[b as int].release_date by {
                            if j < i {
                                assert(prefix[j] == next[j]);
                            }
                        }
                    }
                },
                None => {},
            }
        }
        i = i + 1;
    }
    assert(releases@.take(i as int) =~= releases@);
    match best {
        Some(b) => {
            proof {
                let c = choose|i: int| is_newest(releases@, ch, state, i);
                lemma_newest_unique(releases@, ch, state, c, b as int);
            }
            Some(releases[b].duplicate())
        },
        None => {
            proof {
                if exists|i: int| is_newest(releases@, ch, state, i) {
                    let c = choose|i: int| is_newest(releases@, ch, state, i);
                    assert(release_selected(releases@[c], ch, state));
                }
            }
            None
        },
    }
}

/// Relies on directories::ProjectDirs::from and ProjectDirs::config_local_dir:
/// the per-user local configuration directory of an application, where the
/// platform has a home directory. It depends on the environment.
#[verifier::external_body]
fn project_config_dir(qualifier: &str, organization: &str, application: &str) -> (r: Option<
    std::path::PathBuf,
>) {
    directories::ProjectDirs::from(qualifier, organization, application).map(
        |dirs| dirs.config_local_dir().to_path_buf(),
    )
}

/// Relies on std::path::Path::join: `name` appended to `base` as a path
/// component.
#[verifier::external_body]
fn join_path(base: &std::path::PathBuf, name: &str) -> (r: std::path::PathBuf) {
    base.join(name)
}

/// The directory that holds the client's configuration and lock files, where
/// the platform has one for the user.
pub fn get_config_dir() -> (r: Option<std::path::PathBuf>) {
    project_config_dir("com", "Drops", "Drops Client")
}

/// The configuration document's path, where the platform has a configuration
/// directory for the user.
pub fn get_config_file_path() -> (r: Option<std::path::PathBuf>) {
    match get_config_dir() {
        Some(dir) => Some(join_path(&dir, "config.json")),
        None => None,
    }
}

/// The lock file's path, where the platform has a configuration directory
/// for the user.
pub fn get_lock_file_path() -> (r: Option<std::path::PathBuf>) {
    match get_config_dir() {
        Some(dir) => Some(join_path(&dir, "drops.lock")),
        None => None,
    }
}

} // verus!
