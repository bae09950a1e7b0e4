use vstd::prelude::*;

verus! {

/// Why a login attempt failed.
#[derive(Debug, Clone, PartialEq, Eq, Structural)]
pub enum LoginError {
    APIError,
    Unreachable,
    NotFound,
    MissingSessionToken,
    BadCredentials,
}

/// Why the catalog could not be fetched.
#[derive(Debug, Clone)]
pub enum FetchGamesError {
    APIError(String),
    Unreachable(String),
    NotFound,
    BadCredentials,
    NeedRelogin,
}

/// Why the configuration document could not be loaded.
#[derive(Debug, Clone)]
pub enum ConfigError {
    /// The document does not parse.
    DialogClosed,
    /// The document could not be read; the text names the kind of failure.
    IoError(String),
}

impl LoginError {
    /// The login error for a failed request, from the HTTP status it carried
    /// (none where the host could not be reached).
    pub fn from_status(status: Option<u16>) -> (r: LoginError)
        ensures
            r == match status {
                Some(401) => LoginError::BadCredentials,
                Some(404) => LoginError::NotFound,
                None => LoginError::Unreachable,
                Some(_) => LoginError::APIError,
            },
    {
        match status {
            Some(401) => LoginError::BadCredentials,
            Some(404) => LoginError::NotFound,
            None => LoginError::Unreachable,
            Some(_) => LoginError::APIError,
        }
    }
}

impl FetchGamesError {
    /// The fetch error for a failed request, from the HTTP status it carried
    /// (none where the host could not be reached) and a description of the
    /// failure.
    pub fn from_status(status: Option<u16>, detail: String) -> (r: FetchGamesError)
        ensures
            r == match status {
                Some(401) => FetchGamesError::BadCredentials,
                Some(404) => FetchGamesError::NotFound,
                Some(_) => FetchGamesError::APIError(detail),
                None => FetchGamesError::Unreachable(detail),
            },
    {
        match status {
            Some(401) => FetchGamesError::BadCredentials,
            Some(404) => FetchGamesError::NotFound,
            Some(_) => FetchGamesError::APIError(detail),
            None => FetchGamesError::Unreachable(detail),
        }
    }

    /// Whether the error means that the stored credential is no longer good
    /// and the user must log in again.
    pub fn needs_relogin(&self) -> (r: bool)
        ensures
            r == (self is NeedRelogin || self is BadCredentials),
    {
        match self {
            FetchGamesError::NeedRelogin | FetchGamesError::BadCredentials => true,
            _ => false,
        }
    }
}

} // verus!
