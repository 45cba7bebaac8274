//! GitHub authentication: where the token lives and how it resolves.
//!
//! Jiji's own storage is the system keychain (the host's [`TokenStore`]);
//! zero-config setups keep working through a fallback chain: an explicit
//! environment token, then the `gh` CLI's stored credentials. The
//! resolved source is surfaced to the UI so externally-managed tokens read
//! as such (disconnecting in Jiji only clears the keychain).

use vstd::prelude::*;

use crate::error::ForgeError;
use crate::remote::ForgeRepo;

verus! {

/// Where the active token came from.
#[derive(Debug, Clone, Copy, PartialEq, Eq, Structural)]
pub enum TokenSource {
    /// Stored by Jiji in the system keychain (the in-app login).
    Keychain,
    /// `GITHUB_TOKEN` / `GH_TOKEN` environment variable.
    Environment,
    /// Read from the `gh` CLI's credential store (`gh auth token`).
    GhCli,
}

/// Authentication state for the UI: which token would be used, and the
/// login it verified as (when a verification has happened this session).
#[derive(Debug, Clone, PartialEq, Eq)]
pub struct ForgeAuth {
    /// `None` — no token anywhere; the UI offers connecting.
    pub source: Option<TokenSource>,
    /// GitHub login the token last verified as, when known.
    pub login: Option<String>,
}

/// Everything the Publish surface needs to render the forge connection:
/// the detected repository plus authentication state.
#[derive(Debug, Clone, PartialEq, Eq)]
pub struct ForgeStatus {
    /// GitHub repo behind the open jj repo's preferred remote, when one is.
    pub repo: Option<ForgeRepo>,
    pub auth: ForgeAuth,
}

/// A token plus where it came from.
#[derive(Debug, Clone)]
pub struct ResolvedToken {
    pub token: String,
    pub source: TokenSource,
}

/// Persistent token storage. One implementation is the real keychain (the
/// host's); tests and stubbed hosts use the in-memory store.
pub trait TokenStore {
    /// `r` is what a read of the store in its present state may answer. A
    /// store may say what that is; one that does not leaves every answer
    /// open. The library uses the name only to speak of the answer a read
    /// gave, and assumes nothing of it.
    closed spec fn read_answer(&self, r: Result<Option<String>, ForgeError>) -> bool {
        true
    }

    fn get(&self) -> (r: Result<Option<String>, ForgeError>)
        ensures
            self.read_answer(r),
    ;

    fn set(&mut self, token: &str) -> Result<(), ForgeError>;

    fn delete(&mut self) -> Result<(), ForgeError>;
}

/// In-memory store for tests and stubbed hosts.
#[derive(Debug)]
pub struct MemoryTokenStore {
    token: Option<String>,
}

impl MemoryTokenStore {
    /// The token the store holds.
    pub closed spec fn held(&self) -> Option<Seq<char>> {
        crate::reconcile::opt_view(self.token)
    }

    /// An empty store.
    pub fn new() -> (r: MemoryTokenStore)
        ensures
            r.held() is None,
    {
        MemoryTokenStore { token: None }
    }

    /// Read the stored token.
    pub fn read(&self) -> (r: Option<String>)
        ensures
            crate::reconcile::opt_view(r) == self.held(),
    {
        crate::pr::clone_opt_string(&self.token)
    }

    /// Store a token.
    pub fn write(&mut self, token: &str)
        ensures
            final(self).held() == Some(token@),
    {
        self.token = Some(crate::text::owned(token));
    }

    /// Forget the token.
    pub fn clear(&mut self)
        ensures
            final(self).held() is None,
    {
        self.token = None;
    }
}

impl Default for MemoryTokenStore {
    fn default() -> (r: MemoryTokenStore)
        ensures
            r.held() is None,
    {
        MemoryTokenStore::new()
    }
}

impl TokenStore for MemoryTokenStore {
    open spec fn read_answer(&self, r: Result<Option<String>, ForgeError>) -> bool {
        r matches Ok(t) && crate::reconcile::opt_view(t) == self.held()
    }

    fn get(&self) -> (r: Result<Option<String>, ForgeError>)
        ensures
            r matches Ok(t) && crate::reconcile::opt_view(t) == self.held(),
    {
        Ok(self.read())
    }

    fn set(&mut self, token: &str) -> (r: Result<(), ForgeError>)
        ensures
            r is Ok,
            final(self).held() == Some(token@),
    {
        self.write(token);
        Ok(())
    }

    fn delete(&mut self) -> (r: Result<(), ForgeError>)
        ensures
            r is Ok,
            final(self).held() is None,
    {
        self.clear();
        Ok(())
    }
}

/// An environment answer worth using: present and non-empty.
pub open spec fn usable(v: Option<String>) -> bool {
    match v {
        Some(t) => t@.len() > 0,
        None => false,
    }
}

/// The environment can answer variable `name` with nothing usable.
pub open spec fn env_passed<E: Fn(&str) -> Option<String>>(env: &E, name: &str) -> bool {
    exists|v: Option<String>| #[trigger] call_ensures(env, (name,), v) && !usable(v)
}

/// What the environment and `gh` fallbacks come to: `GITHUB_TOKEN`, then
/// `GH_TOKEN` (an empty value falls through), then the `gh` CLI; `None`
/// when nothing answered. Never an error.
pub open spec fn fallback_told<E: Fn(&str) -> Option<String>, G: Fn() -> Option<String>>(
    env: &E,
    gh: &G,
    r: Result<Option<ResolvedToken>, ForgeError>,
) -> bool {
    match r {
        Ok(Some(t)) => match t.source {
            TokenSource::Keychain => false,
            TokenSource::Environment => {
                ||| call_ensures(env, ("GITHUB_TOKEN",), Some(t.token)) && usable(Some(t.token))
                ||| env_passed(env, "GITHUB_TOKEN") && call_ensures(env, ("GH_TOKEN",), Some(t.token))
                    && usable(Some(t.token))
            },
            TokenSource::GhCli => env_passed(env, "GITHUB_TOKEN") && env_passed(env, "GH_TOKEN")
                && call_ensures(gh, (), Some(t.token)),
        },
        Ok(None) => env_passed(env, "GITHUB_TOKEN") && env_passed(env, "GH_TOKEN") && call_ensures(gh, (), None),
        Err(_) => false,
    }
}

/// What resolution comes to once the store answered `stored`: a stored
/// token wins as the keychain's; an empty store or a failed read (a
/// locked keychain) falls through to the fallbacks and is never returned.
pub open spec fn resolved_after<E: Fn(&str) -> Option<String>, G: Fn() -> Option<String>>(
    stored: Result<Option<String>, ForgeError>,
    env: &E,
    gh: &G,
    r: Result<Option<ResolvedToken>, ForgeError>,
) -> bool {
    match stored {
        Ok(Some(t)) => r matches Ok(Some(x)) && x.token == t && x.source == TokenSource::Keychain,
        _ => fallback_told(env, gh, r),
    }
}

/// The answer the store gave to its read leads resolution to `r`.
pub open spec fn resolved_from_store<S: TokenStore, E: Fn(&str) -> Option<String>, G: Fn() -> Option<String>>(
    store: &S,
    env: &E,
    gh: &G,
    r: Result<Option<ResolvedToken>, ForgeError>,
) -> bool {
    exists|stored: Result<Option<String>, ForgeError>|
        #[trigger] store.read_answer(stored) && resolved_after(stored, env, gh, r)
}

/// Resolve the token from what the store answered (see
/// [`resolved_after`]); the environment and `gh` are asked only when the
/// store gave no token.
pub fn resolve_from<E: Fn(&str) -> Option<String>, G: Fn() -> Option<String>>(
    stored: Result<Option<String>, ForgeError>,
    env: &E,
    gh: &G,
) -> (r: Result<Option<ResolvedToken>, ForgeError>)
    requires
        forall|v: &str| env.requires((v,)),
        gh.requires(()),
    ensures
        resolved_after(stored, env, gh, r),
{
    match stored {
        Ok(Some(token)) => {
            return Ok(Some(ResolvedToken { token, source: TokenSource::Keychain }));
        },
        _ => {},
    }
    let first = env("GITHUB_TOKEN");
    match first {
        Some(token) => if !token.as_str().is_empty() {
            return Ok(Some(ResolvedToken { token, source: TokenSource::Environment }));
        },
        None => {},
    }
    let second = env("GH_TOKEN");
    match second {
        Some(token) => if !token.as_str().is_empty() {
            return Ok(Some(ResolvedToken { token, source: TokenSource::Environment }));
        },
        None => {},
    }
    match gh() {
        Some(token) => Ok(Some(ResolvedToken { token, source: TokenSource::GhCli })),
        None => Ok(None),
    }
}

/// Resolve the token Jiji should use: the store (Jiji's own login), then
/// `GITHUB_TOKEN`, then `GH_TOKEN` (an empty value falls through), then
/// the `gh` CLI's stored credentials. `None` means nothing anywhere. A
/// store read failure degrades to the fallbacks (an environment token
/// should still work when the keychain is locked). `env` answers an
/// environment variable; `gh` asks the `gh` CLI, and is asked only when
/// nothing before it answered. The store is the host's: the result is
/// [`resolve_from`] of whatever its read answered.
pub fn resolve_token_impl<S: TokenStore, E: Fn(&str) -> Option<String>, G: Fn() -> Option<String>>(
    store: &S,
    env: &E,
    gh: &G,
) -> (r: Result<Option<ResolvedToken>, ForgeError>)
    requires
        forall|v: &str| env.requires((v,)),
        gh.requires(()),
    ensures
        r is Ok,
        resolved_from_store(store, env, gh, r),
{
    let stored = store.get();
    let ghost answered = stored;
    let r = resolve_from(stored, env, gh);
    assert(store.read_answer(answered) && resolved_after(answered, env, gh, r));
    r
}

} // verus!
