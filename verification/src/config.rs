//! Session configuration: endpoint, credentials and timeouts.

use vstd::prelude::*;

verus! {

/// Controls how the client connects to Wirechat.
///
/// Timeouts are in milliseconds; a zero timeout means "no timeout,
/// wait indefinitely".
#[derive(Debug, Clone)]
pub struct Config {
    pub url: String,
    pub token: Option<String>,
    pub user: Option<String>,
    pub handshake_timeout: u64,
    pub read_timeout: u64,
    pub write_timeout: u64,
}

impl Default for Config {
    /// Empty endpoint, no credentials, and the stock timeouts.
    fn default() -> (cfg: Self)
        ensures
            cfg.url@ == Seq::<char>::empty(),
            cfg.token is None,
            cfg.user is None,
            cfg.handshake_timeout == 10_000u64,
            cfg.read_timeout == 30_000u64,
            cfg.write_timeout == 10_000u64,
    {
        Config {
            url: String::new(),
            token: None,
            user: None,
            handshake_timeout: 10_000,
            read_timeout: 30_000,
            write_timeout: 10_000,
        }
    }
}

impl Config {
    /// A configuration for the given endpoint and optional auth token,
    /// with the stock timeouts.
    pub fn new(url: String, token: Option<String>) -> (cfg: Self)
        ensures
            cfg.url == url,
            cfg.token == token,
            cfg.user is None,
            cfg.handshake_timeout == 10_000u64,
            cfg.read_timeout == 30_000u64,
            cfg.write_timeout == 10_000u64,
    {
        let mut cfg = Self::default();
        cfg.url = url;
        cfg.token = token;
        cfg
    }

    /// The same configuration with a display name.
    pub fn with_user(self, user: String) -> (cfg: Self)
        ensures
            cfg.user == Some(user),
            cfg.url == self.url,
            cfg.token == self.token,
            cfg.handshake_timeout == self.handshake_timeout,
            cfg.read_timeout == self.read_timeout,
            cfg.write_timeout == self.write_timeout,
    {
        let mut cfg = self;
        cfg.user = Some(user);
        cfg
    }

    /// The same configuration with the three timeouts replaced
    /// (milliseconds; zero disables the timeout).
    pub fn with_timeouts(self, handshake: u64, read: u64, write: u64) -> (cfg: Self)
        ensures
            cfg.handshake_timeout == handshake,
            cfg.read_timeout == read,
            cfg.write_timeout == write,
            cfg.url == self.url,
            cfg.token == self.token,
            cfg.user == self.user,
    {
        let mut cfg = self;
        cfg.handshake_timeout = handshake;
        cfg.read_timeout = read;
        cfg.write_timeout = write;
        cfg
    }
}

} // verus!
