use vstd::prelude::*;

use crate::config::SessionToken;
use crate::errors::{FetchGamesError, LoginError};

verus! {

/// The outcome of a login request, from its HTTP status and the session
/// cookie it set, if any.
pub fn login_outcome(status: u16, cookie: Option<String>) -> (r: Result<SessionToken, LoginError>)
    ensures
        status == 200 ==> match cookie {
            Some(c) => r matches Ok(t) && t.0 == c,
            None => r == Err::<SessionToken, LoginError>(LoginError::MissingSessionToken),
        },
        status == 401 ==> r == Err::<SessionToken, LoginError>(LoginError::BadCredentials),
        status != 200 && status != 401 ==> r == Err::<SessionToken, LoginError>(
            LoginError::APIError,
        ),
{
    if status == 200 {
        match cookie {
            Some(c) => Ok(SessionToken(c)),
            None => Err(LoginError::MissingSessionToken),
        }
    } else if status == 401 {
        Err(LoginError::BadCredentials)
    } else {
        Err(LoginError::APIError)
    }
}

/// Whether the catalog request's HTTP status lets the body be read: a
/// redirection means that the session expired.
pub fn check_games_status(status: u16) -> (r: Result<(), FetchGamesError>)
    ensures
        300 <= status <= 399 ==> r matches Err(FetchGamesError::NeedRelogin),
        !(300 <= status <= 399) ==> r is Ok,
{
    if 300 <= status && status <= 399 {
        Err(FetchGamesError::NeedRelogin)
    } else {
        Ok(())
    }
}

/// Whether `needle` occurs in `hay` at position `at`.
pub open spec fn occurs_at(hay: Seq<char>, needle: Seq<char>, at: int) -> bool {
    0 <= at && at + needle.len() <= hay.len() && hay.subrange(at, at + needle.len()) == needle
}

/// Whether `needle` occurs anywhere in `hay`.
pub open spec fn occurs_in(hay: Seq<char>, needle: Seq<char>) -> bool {
    exists|at: int| occurs_at(hay, needle, at)
}

/// Whether `needle` occurs in `hay`.
pub fn contains_text(hay: &str, needle: &str) -> (r: bool)
    ensures
        r == occurs_in(hay@, needle@),
{
    let n = hay.unicode_len();
    let m = needle.unicode_len();
    if m > n {
        assert forall|at: int| !occurs_at(hay@, needle@, at) by {}
        return false;
    }
    let mut at: usize = 0;
    while at <= n - m
        invariant
            n == hay@.len(),
            m == needle@.len(),
            m <= n,
            forall|b: int| 0 <= b < at ==> !occurs_at(hay@, needle@, b),
        decreases n - m + 1 - at,
    {
        let mut k: usize = 0;
        let mut same = true;
        while k < m
            invariant
                n == hay@.len(),
                m == needle@.len(),
                at + m <= n,
                k <= m,
                same ==> hay@.subrange(at as int, at + k) == needle@.subrange(0, k as int),
                !same ==> !occurs_at(hay@, needle@, at as int),
            decreases m - k,
        {
            if same {
                if hay.get_char(at + k) != needle.get_char(k) {
                    same = false;
                    assert(hay@.subrange(at as int, at + m)[k as int] != needle@[k as int]);
                } else {
                    assert(hay@.subrange(at as int, at + k + 1) =~= hay@.subrange(at as int, at + k).push(hay@[at + k]));
                    assert(needle@.subrange(0, k + 1) =~= needle@.subrange(0, k as int).push(needle@[k as int]));
                }
            }
            k = k + 1;
        }
        if same {
            assert(needle@.subrange(0, m as int) =~= needle@);
            assert(occurs_at(hay@, needle@, at as int));
            return true;
        }
        if at == n - m {
            assert forall|b: int| !occurs_at(hay@, needle@, b) by {
                if 0 <= b && b + m <= n {
                    assert(b <= at);
                }
            }
            return false;
        }
        at = at + 1;
    }
    assert forall|b: int| !occurs_at(hay@, needle@, b) by {
        if 0 <= b && b + m <= n {
            assert(b < at);
        }
    }
    false
}

/// The mark that a catalog server's start page carries.
pub const SERVER_MARK: &'static str = "\u{1F4A7}";

/// Whether a start page served with HTTP status 200 is a catalog server's.
pub fn check_server_page(page: &str) -> (r: Result<(), String>)
    ensures
        r.is_ok() == occurs_in(page@, SERVER_MARK@),
{
    if contains_text(page, SERVER_MARK) {
        Ok(())
    } else {
        Err(String::from_str("not a drops server"))
    }
}

} // verus!
