use jiji_forge::error::ForgeError;
use jiji_forge::remote::{detect_github_repo, no_github_remote, parse_github_url, ForgeRepo};

fn repo(url: &str) -> Option<ForgeRepo> {
    parse_github_url("origin", url)
}

#[test]
fn parses_https_urls() {
    let r = repo("https://github.com/scullionw/jiji.git").unwrap();
    assert_eq!(r.host, "github.com");
    assert_eq!(r.owner, "scullionw");
    assert_eq!(r.name, "jiji");
    // No .git suffix.
    assert_eq!(repo("https://github.com/o/r").unwrap().name, "r");
    // Trailing path segments beyond owner/name are ignored.
    assert_eq!(repo("https://github.com/o/r/tree/main").unwrap().name, "r");
}

#[test]
fn parses_ssh_urls() {
    assert_eq!(repo("git@github.com:o/r.git").unwrap().owner, "o");
    assert_eq!(repo("ssh://git@github.com/o/r.git").unwrap().name, "r");
    let with_port = repo("ssh://git@github.com:22/o/r.git").unwrap();
    assert_eq!(with_port.host, "github.com");
    assert_eq!(with_port.owner, "o");
}

#[test]
fn parses_enterprise_subdomains() {
    let r = repo("https://company.github.com/team/tool.git").unwrap();
    assert_eq!(r.host, "company.github.com");
    assert_eq!(r.api_root(), "https://company.github.com/api/v3/");
    assert_eq!(r.graphql_url(), "https://company.github.com/api/graphql");
}

#[test]
fn github_com_api_endpoints() {
    let r = repo("https://github.com/o/r.git").unwrap();
    assert_eq!(r.api_root(), "https://api.github.com/");
    assert_eq!(r.graphql_url(), "https://api.github.com/graphql");
}

#[test]
fn rejects_non_github_hosts_and_junk() {
    assert!(repo("https://gitlab.com/o/r.git").is_none());
    assert!(repo("git@gitlab.com:o/r.git").is_none());
    assert!(repo("https://notgithub.com/o/r.git").is_none());
    assert!(repo("").is_none());
    assert!(repo("https://github.com/only-owner").is_none());
    assert!(repo("https://github.com//r.git").is_none());
}

#[test]
fn detection_prefers_origin_then_upstream_then_name_order() {
    let remotes = [
        ("zeta", "https://github.com/zeta/r.git"),
        ("upstream", "https://github.com/up/r.git"),
        ("origin", "https://github.com/or/r.git"),
    ];
    let picked = detect_github_repo(&remotes).unwrap();
    assert_eq!(picked.remote, "origin");

    let remotes = [
        ("zeta", "https://github.com/zeta/r.git"),
        ("alpha", "https://github.com/alpha/r.git"),
    ];
    let picked = detect_github_repo(&remotes).unwrap();
    assert_eq!(picked.remote, "alpha");
}

#[test]
fn detection_skips_non_github_remotes() {
    let remotes = [
        ("origin", "https://gitlab.com/o/r.git"),
        ("mirror", "https://github.com/o/r.git"),
    ];
    let picked = detect_github_repo(&remotes).unwrap();
    assert_eq!(picked.remote, "mirror");

    assert!(detect_github_repo(&[("origin", "https://example.com/o/r.git")]).is_none());
    assert!(detect_github_repo(&[]).is_none());
}

#[test]
fn upstream_outranks_names_and_equal_names_keep_the_first() {
    let remotes = [
        ("alpha", "https://github.com/alpha/r.git"),
        ("upstream", "https://github.com/up/r.git"),
    ];
    assert_eq!(detect_github_repo(&remotes).unwrap().owner, "up");
    let remotes = [
        ("dup", "https://github.com/first/r.git"),
        ("dup", "https://github.com/second/r.git"),
    ];
    assert_eq!(detect_github_repo(&remotes).unwrap().owner, "first");
}

#[test]
fn ssh_ports_strip_only_when_numeric() {
    let r = repo("ssh://git@github.com:2222/o/r.git").unwrap();
    assert_eq!(r.host, "github.com");
    // A non-numeric "port" keeps the host whole, which is then not GitHub.
    assert!(repo("ssh://git@github.com:abc/o/r.git").is_none());
    // Whitespace around owner and name is trimmed.
    let r = repo("https://github.com/ o / r .git").unwrap();
    assert_eq!((r.owner.as_str(), r.name.as_str()), ("o", "r"));
}

#[test]
fn missing_remote_error_reads_the_same_everywhere() {
    let err = no_github_remote();
    assert_eq!(err.code(), "not_found");
    assert_eq!(
        err,
        ForgeError::NotFound(
            "this repository has no GitHub remote; add one with `jj git remote add`".into()
        )
    );
    assert!(err.message().starts_with("Not found on GitHub: this repository"));
}
