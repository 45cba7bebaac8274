use jiji_forge::auth::{resolve_from, resolve_token_impl, MemoryTokenStore, TokenSource, TokenStore};
use jiji_forge::error::ForgeError;
use jiji_forge::session::{CommandError, ForgeState};

fn no_env(_: &str) -> Option<String> {
    None
}

fn no_gh() -> Option<String> {
    None
}

#[test]
fn keychain_wins_over_everything() {
    let mut store = MemoryTokenStore::default();
    store.set("stored").unwrap();
    let resolved = resolve_token_impl(&store, &|_: &str| Some("from-env".into()), &|| Some("from-gh".into()))
        .unwrap()
        .unwrap();
    assert_eq!(resolved.token, "stored");
    assert_eq!(resolved.source, TokenSource::Keychain);
}

#[test]
fn env_wins_over_gh_and_prefers_github_token() {
    let store = MemoryTokenStore::default();
    let resolved = resolve_token_impl(
        &store,
        &|var: &str| match var {
            "GITHUB_TOKEN" => Some("primary".into()),
            "GH_TOKEN" => Some("secondary".into()),
            _ => None,
        },
        &|| Some("from-gh".into()),
    )
    .unwrap()
    .unwrap();
    assert_eq!(resolved.token, "primary");
    assert_eq!(resolved.source, TokenSource::Environment);

    let resolved = resolve_token_impl(
        &store,
        &|var: &str| match var {
            "GITHUB_TOKEN" => Some(String::new()),
            "GH_TOKEN" => Some("secondary".into()),
            _ => None,
        },
        &no_gh,
    )
    .unwrap()
    .unwrap();
    assert_eq!(resolved.token, "secondary");
}

#[test]
fn gh_cli_is_the_last_fallback_and_none_means_none() {
    let store = MemoryTokenStore::default();
    let resolved = resolve_token_impl(&store, &no_env, &|| Some("gho_x".into())).unwrap().unwrap();
    assert_eq!(resolved.source, TokenSource::GhCli);

    assert!(resolve_token_impl(&store, &no_env, &no_gh).unwrap().is_none());
}

struct BrokenStore;

impl TokenStore for BrokenStore {
    fn get(&self) -> Result<Option<String>, ForgeError> {
        Err(ForgeError::Keychain("locked".into()))
    }
    fn set(&mut self, _: &str) -> Result<(), ForgeError> {
        unreachable!()
    }
    fn delete(&mut self) -> Result<(), ForgeError> {
        unreachable!()
    }
}

#[test]
fn broken_keychain_degrades_to_fallbacks() {
    let resolved = resolve_token_impl(
        &BrokenStore,
        &|var: &str| if var == "GITHUB_TOKEN" { Some("env-token".into()) } else { None },
        &no_gh,
    )
    .unwrap()
    .unwrap();
    assert_eq!(resolved.source, TokenSource::Environment);
}

#[test]
fn memory_store_forgets_on_delete() {
    let mut store = MemoryTokenStore::default();
    assert_eq!(store.get().unwrap(), None);
    store.set("t").unwrap();
    assert_eq!(store.get().unwrap(), Some("t".to_owned()));
    store.delete().unwrap();
    assert_eq!(store.get().unwrap(), None);
}

#[test]
fn session_remembers_logins_per_source() {
    let mut state = ForgeState::new();
    assert_eq!(state.login_for(TokenSource::Keychain), None);
    state.remember(TokenSource::Keychain, "octocat".into());
    assert_eq!(state.login_for(TokenSource::Keychain), Some("octocat".to_owned()));
    assert_eq!(state.login_for(TokenSource::Environment), None);
    state.forget();
    assert_eq!(state.login_for(TokenSource::Keychain), None);
}

#[test]
fn command_errors_carry_the_forge_code() {
    let err = CommandError::from_forge(&ForgeError::NoToken);
    assert_eq!(err.code, "no_token");
    assert!(err.message.starts_with("No GitHub token found"));
    let err = CommandError::new("x", "y".into());
    assert_eq!((err.code.as_str(), err.message.as_str()), ("x", "y"));
}

#[test]
fn resolution_follows_the_store_answer() {
    let stored = resolve_from(Ok(Some("stored".into())), &|_: &str| Some("from-env".into()), &|| Some("from-gh".into()))
        .unwrap()
        .unwrap();
    assert_eq!((stored.token.as_str(), stored.source), ("stored", TokenSource::Keychain));
    let locked = resolve_from(Err(ForgeError::Keychain("locked".into())), &|name: &str| {
        if name == "GITHUB_TOKEN" { Some("env-token".into()) } else { None }
    }, &no_gh)
    .unwrap()
    .unwrap();
    assert_eq!((locked.token.as_str(), locked.source), ("env-token", TokenSource::Environment));
    let empty = resolve_from(Ok(None), &|name: &str| {
        if name == "GITHUB_TOKEN" { Some(String::new()) } else { Some("secondary".into()) }
    }, &no_gh)
    .unwrap()
    .unwrap();
    assert_eq!((empty.token.as_str(), empty.source), ("secondary", TokenSource::Environment));
    let gh = resolve_from(Ok(None), &no_env, &|| Some("gho_x".into())).unwrap().unwrap();
    assert_eq!((gh.token.as_str(), gh.source), ("gho_x", TokenSource::GhCli));
    assert!(resolve_from(Err(ForgeError::Keychain("locked".into())), &no_env, &no_gh).unwrap().is_none());
}
