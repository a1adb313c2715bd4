//! The broker's settings, as given on its command line.

use vstd::prelude::*;

verus! {

/// How many users the broker admits when no limit is given.
pub const DEFAULT_MAX_USERS: u16 = 10;

/// The port to serve, the user limit and the optional chat key.
#[derive(Debug, Clone)]
pub struct Settings {
    pub port: u16,
    pub max_users: u16,
    pub key: Option<String>,
}

impl Settings {
    /// Settings from the given options; the user limit defaults to [`DEFAULT_MAX_USERS`].
    pub fn new(port: u16, max_users: Option<u16>, key: Option<String>) -> (r: Settings)
        ensures
            r.port == port,
            r.max_users == match max_users {
                Some(m) => m,
                None => DEFAULT_MAX_USERS,
            },
            r.key == key,
    {
        let max_users = match max_users {
            Some(m) => m,
            None => DEFAULT_MAX_USERS,
        };
        Settings { port, max_users, key }
    }
}

} // verus!
