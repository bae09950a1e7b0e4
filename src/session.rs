use vstd::prelude::*;

use crate::config::{ClientConfig, DropsAccountConfig, SessionToken};

verus! {

/// The screen the client shows.
#[derive(Debug, Clone)]
pub enum Screen {
    Empty,
    Wizard,
    /// A newer client version, named by its version text, can be installed.
    ClientUpdateAvailable(String),
    Login,
    LoggingIn,
    Downloading,
    Main,
    Error(String),
    PlayingGame(String),
}

/// The screen to start on: the setup wizard without a configured account,
/// the login form without a credential, the library otherwise.
pub fn initial_screen(config: &ClientConfig) -> (r: Screen)
    requires
        config.is_active ==> config.has_active(),
    ensures
        !config.is_active ==> r == Screen::Wizard,
        config.is_active && config.active().session_token.0@.len() > 0 ==> r == Screen::Main,
        config.is_active && config.active().session_token.0@.len() == 0 ==> r == Screen::Login,
{
    if !config.is_active {
        Screen::Wizard
    } else if config.has_session_token() {
        Screen::Main
    } else {
        Screen::Login
    }
}

/// The input of the first-run setup form.
#[derive(Debug, Clone)]
pub struct WizardMessageHandler {
    pub has_valid_host: bool,
    pub games_dir_input: String,
    pub has_valid_games_dir: bool,
    pub drops_url_input: String,
    pub is_checking_host_reachable: bool,
    pub host_error: String,
}

impl WizardMessageHandler {
    /// An empty form.
    pub fn new() -> (r: WizardMessageHandler)
        ensures
            !r.has_valid_host,
            !r.has_valid_games_dir,
            !r.is_checking_host_reachable,
            r.games_dir_input@.len() == 0,
            r.drops_url_input@.len() == 0,
            r.host_error@.len() == 0,
    {
        WizardMessageHandler {
            has_valid_host: false,
            games_dir_input: String::new(),
            has_valid_games_dir: false,
            drops_url_input: String::new(),
            is_checking_host_reachable: false,
            host_error: String::new(),
        }
    }

    /// Empties the two text inputs.
    pub fn clear_input(&mut self)
        ensures
            final(self).games_dir_input@.len() == 0,
            final(self).drops_url_input@.len() == 0,
            final(self).has_valid_host == old(self).has_valid_host,
            final(self).has_valid_games_dir == old(self).has_valid_games_dir,
            final(self).is_checking_host_reachable == old(self).is_checking_host_reachable,
            final(self).host_error == old(self).host_error,
    {
        self.games_dir_input = String::new();
        self.drops_url_input = String::new();
    }

    /// Whether the server address can be tested now: an address is typed
    /// and no test is running.
    pub fn can_test(&self) -> (r: bool)
        ensures
            r == (!self.is_checking_host_reachable && self.drops_url_input@.len() > 0),
    {
        !self.is_checking_host_reachable && self.drops_url_input.as_str().unicode_len() > 0
    }

    /// Takes a new server address; it is untested.
    pub fn url_changed(&mut self, url: String)
        ensures
            final(self).drops_url_input == url,
            !final(self).has_valid_host,
            final(self).games_dir_input == old(self).games_dir_input,
            final(self).has_valid_games_dir == old(self).has_valid_games_dir,
            final(self).is_checking_host_reachable == old(self).is_checking_host_reachable,
            final(self).host_error == old(self).host_error,
    {
        self.drops_url_input = url;
        self.has_valid_host = false;
    }

    /// Takes the outcome of a reachability test of the server address.
    pub fn host_checked(&mut self, result: Result<(), String>)
        ensures
            !final(self).is_checking_host_reachable,
            final(self).drops_url_input == old(self).drops_url_input,
            final(self).games_dir_input == old(self).games_dir_input,
            final(self).has_valid_games_dir == old(self).has_valid_games_dir,
            match result {
                Ok(()) => final(self).has_valid_host && final(self).host_error@.len() == 0,
                Err(reason) => final(self).host_error == reason && final(self).has_valid_host
                    == old(self).has_valid_host,
            },
    {
        match result {
            Ok(()) => {
                self.has_valid_host = true;
                self.host_error = String::new();
            },
            Err(reason) => {
                self.host_error = reason;
            },
        }
        self.is_checking_host_reachable = false;
    }

    /// Adds an account for the typed server and install root under the
    /// fresh id `id`, and makes it the active one; the caller persists the
    /// document.
    pub fn finish(&self, config: &mut ClientConfig, id: u128)
        ensures
            final(config).is_active,
            final(config).active_account == id,
            final(config).accounts@.len() == old(config).accounts@.len() + 1,
            final(config).accounts@.drop_last() == old(config).accounts@,
            final(config).accounts@.last().id == id,
            final(config).accounts@.last().url == self.drops_url_input,
            final(config).accounts@.last().games_dir == self.games_dir_input,
            final(config).accounts@.last().username@.len() == 0,
            final(config).accounts@.last().session_token.0@.len() == 0,
            final(config).accounts@.last().games@.len() == 0,
    {
        let account = DropsAccountConfig {
            id,
            url: self.drops_url_input.clone(),
            games_dir: self.games_dir_input.clone(),
            username: String::new(),
            session_token: SessionToken(String::new()),
            games: Vec::new(),
        };
        config.is_active = true;
        config.active_account = id;
        config.accounts.push(account);
        assert(config.accounts@.drop_last() =~= old(config).accounts@);
    }
}

/// Where a self-update of the client stands.
#[derive(Debug, Clone)]
pub enum ClientUpdateState {
    HasUpdate,
    IsUpdating,
    UpdateError(String),
    Completed,
}

/// The self-update offer of the client.
#[derive(Debug, Clone)]
pub struct ClientUpdateHandler {
    pub state: ClientUpdateState,
}

impl ClientUpdateHandler {
    /// An offer of an available update.
    pub fn new() -> (r: ClientUpdateHandler)
        ensures
            r.state is HasUpdate,
    {
        ClientUpdateHandler { state: ClientUpdateState::HasUpdate }
    }

    /// The update is being downloaded and installed.
    pub fn begin_update(&mut self)
        ensures
            final(self).state is IsUpdating,
    {
        self.state = ClientUpdateState::IsUpdating;
    }

    /// Takes the outcome of the update.
    pub fn update_finished(&mut self, result: Result<(), String>)
        ensures
            match result {
                Ok(()) => final(self).state is Completed,
                Err(e) => final(self).state == ClientUpdateState::UpdateError(e),
            },
    {
        self.state = match result {
            Ok(()) => ClientUpdateState::Completed,
            Err(e) => ClientUpdateState::UpdateError(e),
        };
    }
}

/// The file name of the client's executable in a release archive for the
/// given platform.
pub fn client_binary_name(platform: &str) -> (r: String)
    ensures
        platform@ == "windows"@ ==> r@ == "drops-client.exe"@,
        platform@ != "windows"@ ==> r@ == "drops-client"@,
{
    let mut name = String::from_str("drops-client");
    if crate::text::text_eq(platform, "windows") {
        name.append(".exe");
        proof {
            reveal_strlit("drops-client");
            reveal_strlit(".exe");
            reveal_strlit("drops-client.exe");
            assert(name@ =~= "drops-client.exe"@);
        }
    }
    name
}

} // verus!
