use jiji_forge::error::{BackendError, ForgeError};

#[test]
fn every_error_kind_has_its_code_and_message() {
    let cases = [
        (ForgeError::NoToken, "no_token", "No GitHub token found. Connect in the Publish section, set GITHUB_TOKEN, or run `gh auth login`"),
        (ForgeError::AuthFailed("x".into()), "auth_failed", "GitHub rejected the token: x"),
        (ForgeError::RateLimited("x".into()), "rate_limited", "GitHub rate limit exceeded: x"),
        (ForgeError::NotFound("x".into()), "not_found", "Not found on GitHub: x"),
        (ForgeError::Api("x".into()), "api_failed", "GitHub request failed: x"),
        (ForgeError::Network("x".into()), "network_failed", "Could not reach GitHub: x"),
        (ForgeError::Keychain("x".into()), "keychain_failed", "Could not access the system keychain: x"),
        (ForgeError::Plan("x".into()), "plan_failed", "Cannot submit this stack: x"),
        (ForgeError::Land("x".into()), "plan_failed", "Cannot land this stack: x"),
        (ForgeError::Ship("x".into()), "plan_failed", "Cannot ship this stack: x"),
    ];
    for (err, code, message) in cases {
        assert_eq!(err.code(), code);
        assert_eq!(err.message(), message);
    }
}

#[test]
fn backend_errors_carry_their_story() {
    let err = BackendError::MutationFailed("remote moved".into());
    assert_eq!(err.message(), "remote moved");
    assert_eq!(err.code(), "mutation_failed");
    assert_eq!(BackendError::Unavailable("gone".into()).code(), "repo_unavailable");
}
