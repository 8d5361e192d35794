//! The configuration of a repository and of the program.

use vstd::prelude::*;

verus! {

/// A password, which is never written out.
#[derive(Clone, PartialEq, Eq, PartialOrd)]
pub struct Password {
    /// The password.
    pub password: String,
}

impl Password {
    /// A password with the given text.
    pub fn new(password: &str) -> (r: Password)
        ensures
            r.password@ == password@,
    {
        Password { password: password.to_string() }
    }

    /// A password with the given text.
    pub fn from_str(s: &str) -> (r: Result<Password, std::convert::Infallible>)
        ensures
            r matches Ok(p) && p.password@ == s@,
    {
        Ok(Password::new(s))
    }

    /// The text of the password.
    pub fn as_str(&self) -> (r: &str)
        ensures
            r@ == self.password@,
    {
        self.password.as_str()
    }

    /// What is shown in place of the password: three stars, whatever the password.
    pub fn to_string(&self) -> (r: String)
        ensures
            r@ == "***"@,
    {
        "***".to_string()
    }
}

/// The configuration of a repository.
#[derive(Clone, PartialEq, Eq)]
pub struct RepositoryConfiguration {
    /// The address of the remote of the repository.
    pub uri: String,
    /// The path at which the repository is checked out.
    pub checkout_path: String,
    /// The refspecs to fetch by. They should cover the watched references.
    pub fetch_refspecs: Vec<String>,
    /// The refspecs to push by.
    pub push_refspecs: Vec<String>,
    /// The name of the user at the remote.
    pub username: Option<String>,
    /// The password of the user at the remote.
    pub password: Option<Password>,
    /// The path of the private key for the remote. Without one, a key that the remote asks
    /// for is requested from the SSH agent.
    pub key: Option<String>,
    /// The passphrase of the private key.
    pub key_passphrase: Option<Password>,
    /// The name under which merge commits are made. Without name and email, those of the
    /// Git configuration are used.
    pub signature_name: Option<String>,
    /// The email under which merge commits are made.
    pub signature_email: Option<String>,
}

/// The number of seconds between two rounds where the configuration gives none.
pub const DEFAULT_INTERVAL: u64 = 30;

/// The configuration of the program.
#[derive(Clone, PartialEq, Eq)]
pub struct Config {
    /// The configuration of the repository.
    pub repository: RepositoryConfiguration,
    /// The number of seconds between two rounds.
    pub interval: Option<u64>,
}

impl Config {
    /// The number of seconds between two rounds: the configured number, or thirty.
    pub fn interval_seconds(&self) -> (r: u64)
        ensures
            r == (match self.interval {
                Some(i) => i,
                None => DEFAULT_INTERVAL,
            }),
    {
        match self.interval {
            Some(i) => i,
            None => DEFAULT_INTERVAL,
        }
    }
}

} // verus!
