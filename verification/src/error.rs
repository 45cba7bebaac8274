//! Boundary-safe forge errors: plain-language messages plus a stable
//! machine-readable code for the UI, and the jj-side error the engines
//! receive from their hosts.

use vstd::prelude::*;

use crate::text::{chars_of, push_all, string_of};

verus! {

/// A forge failure, as the UI explains it.
#[derive(Debug, Clone, PartialEq, Eq)]
pub enum ForgeError {
    NoToken,
    AuthFailed(String),
    RateLimited(String),
    NotFound(String),
    Api(String),
    Network(String),
    Keychain(String),
    Plan(String),
    Land(String),
    Ship(String),
}

/// The stable code of each error kind.
pub open spec fn error_code(e: ForgeError) -> Seq<char> {
    match e {
        ForgeError::NoToken => "no_token"@,
        ForgeError::AuthFailed(_) => "auth_failed"@,
        ForgeError::RateLimited(_) => "rate_limited"@,
        ForgeError::NotFound(_) => "not_found"@,
        ForgeError::Api(_) => "api_failed"@,
        ForgeError::Network(_) => "network_failed"@,
        ForgeError::Keychain(_) => "keychain_failed"@,
        ForgeError::Plan(_) => "plan_failed"@,
        ForgeError::Land(_) => "plan_failed"@,
        ForgeError::Ship(_) => "plan_failed"@,
    }
}

/// The plain-language message of each error.
pub open spec fn error_message(e: ForgeError) -> Seq<char> {
    match e {
        ForgeError::NoToken => "No GitHub token found. Connect in the Publish section, set GITHUB_TOKEN, or run `gh auth login`"@,
        ForgeError::AuthFailed(m) => "GitHub rejected the token: "@ + m@,
        ForgeError::RateLimited(m) => "GitHub rate limit exceeded: "@ + m@,
        ForgeError::NotFound(m) => "Not found on GitHub: "@ + m@,
        ForgeError::Api(m) => "GitHub request failed: "@ + m@,
        ForgeError::Network(m) => "Could not reach GitHub: "@ + m@,
        ForgeError::Keychain(m) => "Could not access the system keychain: "@ + m@,
        ForgeError::Plan(m) => "Cannot submit this stack: "@ + m@,
        ForgeError::Land(m) => "Cannot land this stack: "@ + m@,
        ForgeError::Ship(m) => "Cannot ship this stack: "@ + m@,
    }
}

fn prefixed(prefix: &str, m: &String) -> (r: String)
    ensures
        r@ == prefix@ + m@,
{
    let mut v = chars_of(prefix);
    let t = chars_of(m.as_str());
    push_all(&mut v, &t);
    string_of(&v)
}

impl ForgeError {
    /// Stable machine-readable code for the UI.
    pub fn code(&self) -> (r: &'static str)
        ensures
            r@ == error_code(*self),
    {
        match self {
            ForgeError::NoToken => "no_token",
            ForgeError::AuthFailed(_) => "auth_failed",
            ForgeError::RateLimited(_) => "rate_limited",
            ForgeError::NotFound(_) => "not_found",
            ForgeError::Api(_) => "api_failed",
            ForgeError::Network(_) => "network_failed",
            ForgeError::Keychain(_) => "keychain_failed",
            ForgeError::Plan(_) => "plan_failed",
            ForgeError::Land(_) => "plan_failed",
            ForgeError::Ship(_) => "plan_failed",
        }
    }

    /// The plain-language message (what `Display` shows).
    pub fn message(&self) -> (r: String)
        ensures
            r@ == error_message(*self),
    {
        match self {
            ForgeError::NoToken => {
                let v = chars_of(
                    "No GitHub token found. Connect in the Publish section, set GITHUB_TOKEN, or run `gh auth login`",
                );
                string_of(&v)
            },
            ForgeError::AuthFailed(m) => prefixed("GitHub rejected the token: ", m),
            ForgeError::RateLimited(m) => prefixed("GitHub rate limit exceeded: ", m),
            ForgeError::NotFound(m) => prefixed("Not found on GitHub: ", m),
            ForgeError::Api(m) => prefixed("GitHub request failed: ", m),
            ForgeError::Network(m) => prefixed("Could not reach GitHub: ", m),
            ForgeError::Keychain(m) => prefixed("Could not access the system keychain: ", m),
            ForgeError::Plan(m) => prefixed("Cannot submit this stack: ", m),
            ForgeError::Land(m) => prefixed("Cannot land this stack: ", m),
            ForgeError::Ship(m) => prefixed("Cannot ship this stack: ", m),
        }
    }
}

/// A failure of the jj side (fetch, rebase, push, bookmark and change
/// edits), as a host reports it to the engines.
#[derive(Debug, Clone, PartialEq, Eq)]
pub enum BackendError {
    /// A jj mutation refused or failed; the text says why.
    MutationFailed(String),
    /// The repository could not be read.
    Unavailable(String),
}

/// The plain-language message of a jj-side failure.
pub open spec fn backend_message(e: BackendError) -> Seq<char> {
    match e {
        BackendError::MutationFailed(m) => m@,
        BackendError::Unavailable(m) => m@,
    }
}

impl BackendError {
    /// The plain-language message (what `Display` shows).
    pub fn message(&self) -> (r: String)
        ensures
            r@ == backend_message(*self),
    {
        match self {
            BackendError::MutationFailed(m) => m.clone(),
            BackendError::Unavailable(m) => m.clone(),
        }
    }

    /// Stable machine-readable code for the UI.
    pub fn code(&self) -> (r: &'static str)
        ensures
            r@ == (match *self {
                BackendError::MutationFailed(_) => "mutation_failed"@,
                BackendError::Unavailable(_) => "repo_unavailable"@,
            }),
    {
        match self {
            BackendError::MutationFailed(_) => "mutation_failed",
            BackendError::Unavailable(_) => "repo_unavailable",
        }
    }
}

} // verus!
