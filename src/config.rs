//! Settings read once at start-up.
use vstd::prelude::*;

verus! {

/// How many failures a minute the supervisor tolerates unless told otherwise.
pub const DEFAULT_MAX_FAILURES_PER_MINUTE: u128 = 30;

/// The bot's settings.
#[derive(Debug, Clone)]
pub struct Config {
    pub token: String,
    pub handle: Option<String>,
    pub max_failures_per_minute: u128,
}

/// Builds a `Config` from its token, with defaults for the rest.
#[derive(Debug)]
pub struct Builder {
    pub config: Config,
}

impl Builder {
    /// Settings with this token, no handle and the default failure budget.
    pub fn new(token: String) -> (r: Self)
        ensures
            r.config.token == token,
            r.config.handle is None,
            r.config.max_failures_per_minute == DEFAULT_MAX_FAILURES_PER_MINUTE,
    {
        Builder {
            config: Config {
                token,
                handle: None,
                max_failures_per_minute: DEFAULT_MAX_FAILURES_PER_MINUTE,
            },
        }
    }

    /// The same settings with this handle.
    pub fn handle(self, handle: String) -> (r: Self)
        ensures
            r.config.token == self.config.token,
            r.config.handle == Some(handle),
            r.config.max_failures_per_minute == self.config.max_failures_per_minute,
    {
        Builder { config: Config { handle: Some(handle), ..self.config } }
    }

    /// The same settings with this failure budget.
    pub fn max_failures_per_minute(self, count: u128) -> (r: Self)
        ensures
            r.config.token == self.config.token,
            r.config.handle == self.config.handle,
            r.config.max_failures_per_minute == count,
    {
        Builder { config: Config { max_failures_per_minute: count, ..self.config } }
    }

    /// The settings built.
    pub fn finish(self) -> (r: Config)
        ensures
            r == self.config,
    {
        self.config
    }
}

impl Config {
    pub fn token(&self) -> (r: &str)
        ensures
            r@ == self.token@,
    {
        self.token.as_str()
    }

    pub fn handle(&self) -> (r: Option<&str>)
        ensures
            match self.handle {
                Some(h) => r matches Some(s) && s@ == h@,
                None => r is None,
            },
    {
        match &self.handle {
            Some(h) => Some(h.as_str()),
            None => None,
        }
    }

    pub fn max_failures_per_minute(&self) -> (r: u128)
        ensures
            r == self.max_failures_per_minute,
    {
        self.max_failures_per_minute
    }
}

/// The settings that the environment supplies.
#[derive(Debug, Clone)]
pub struct Environment {
    pub token: String,
    pub handle: String,
}

} // verus!
