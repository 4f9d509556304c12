//! The deployment's settings, as the configuration file gives them.

use vstd::prelude::*;

verus! {

/// Everything the configuration file holds.
#[derive(Debug, Clone)]
pub struct Settings {
    pub database: Database,
    pub totp: Totp,
    pub logs: Logs,
    pub pi: Pi,
}

/// Where the device store is kept.
#[derive(Debug, Clone)]
pub struct Database {
    pub path: String,
}

/// How one-time codes are computed.
#[derive(Debug, Clone)]
pub struct Totp {
    /// `sha1`, `sha512`, or anything else for SHA-256.
    pub sha: String,
}

/// What is logged.
#[derive(Debug, Clone)]
pub struct Logs {
    pub level: String,
}

/// How the relays are driven.
#[derive(Debug, Clone)]
pub struct Pi {
    /// For how long an operated relay stays closed.
    pub close_duration: u64,
}

/// The hash variant of a one-time code generator.
#[derive(Debug, Clone, Copy, PartialEq, Eq, Structural)]
pub enum Algorithm {
    SHA1,
    SHA256,
    SHA512,
}

/// The hash variant that the configured name `sha` selects: `sha1` and
/// `sha512` select their own, every other name SHA-256.
pub open spec fn algorithm_named(sha: Seq<char>) -> Algorithm {
    if sha == "sha1"@ {
        Algorithm::SHA1
    } else if sha == "sha512"@ {
        Algorithm::SHA512
    } else {
        Algorithm::SHA256
    }
}

/// The hash variant that the configured name `sha` selects.
pub fn algorithm_of(sha: &String) -> (algorithm: Algorithm)
    ensures
        algorithm == algorithm_named(sha@),
{
    if *sha == "sha1".to_owned() {
        Algorithm::SHA1
    } else if *sha == "sha512".to_owned() {
        Algorithm::SHA512
    } else {
        Algorithm::SHA256
    }
}

impl Totp {
    /// The hash variant that these settings select.
    pub fn algorithm(&self) -> (algorithm: Algorithm)
        ensures
            algorithm == algorithm_named(self.sha@),
    {
        algorithm_of(&self.sha)
    }
}

} // verus!
