//! Detecting the forge repository behind a git remote.
//!
//! Pure URL parsing: the host hands in the remote list, and detection
//! picks the preferred GitHub remote the same way jj's default `trunk()`
//! ranks remotes — origin first, then upstream, then the rest by name.

use vstd::prelude::*;

use crate::error::ForgeError;
use crate::text::{
    all_ascii_digits, all_digits, chars_eq, chars_less, chars_of, ends_with, ends_with_chars, owned,
    push_str, rsplit_once, rsplit_once_chars, seq_less, slice_chars, split_once, split_once_chars,
    string_of, str_eq, strip_prefix, strip_prefix_chars, strip_suffix, strip_suffix_chars, trim,
    trim_chars,
};

verus! {

/// The forges Jiji talks to.
#[derive(Debug, Clone, Copy, PartialEq, Eq)]
pub enum ForgeProvider {
    GitHub,
}

/// The forge-side identity of a repository, derived from one git remote.
#[derive(Debug, Clone, PartialEq, Eq)]
pub struct ForgeRepo {
    pub provider: ForgeProvider,
    /// Name of the git remote this was derived from (e.g. "origin").
    pub remote: String,
    /// Forge host (e.g. "github.com", or a GitHub Enterprise host).
    pub host: String,
    pub owner: String,
    pub name: String,
}

/// The REST API root for a host.
pub open spec fn api_root_of(host: Seq<char>) -> Seq<char> {
    if host == "github.com"@ {
        "https://api.github.com/"@
    } else {
        "https://"@ + host + "/api/v3/"@
    }
}

/// The GraphQL endpoint for a host.
pub open spec fn graphql_url_of(host: Seq<char>) -> Seq<char> {
    if host == "github.com"@ {
        "https://api.github.com/graphql"@
    } else {
        "https://"@ + host + "/api/graphql"@
    }
}

impl ForgeRepo {
    /// REST API root for this repo's host.
    pub fn api_root(&self) -> (r: String)
        ensures
            r@ == api_root_of(self.host@),
    {
        if str_eq(self.host.as_str(), "github.com") {
            owned("https://api.github.com/")
        } else {
            // GitHub Enterprise Server convention.
            let mut v = chars_of("https://");
            push_str(&mut v, self.host.as_str());
            push_str(&mut v, "/api/v3/");
            string_of(&v)
        }
    }

    /// GraphQL endpoint for this repo's host.
    pub fn graphql_url(&self) -> (r: String)
        ensures
            r@ == graphql_url_of(self.host@),
    {
        if str_eq(self.host.as_str(), "github.com") {
            owned("https://api.github.com/graphql")
        } else {
            let mut v = chars_of("https://");
            push_str(&mut v, self.host.as_str());
            push_str(&mut v, "/api/graphql");
            string_of(&v)
        }
    }

    /// A field-for-field copy.
    pub fn duplicate(&self) -> (r: ForgeRepo)
        ensures
            r == *self,
    {
        ForgeRepo {
            provider: self.provider,
            remote: self.remote.clone(),
            host: self.host.clone(),
            owner: self.owner.clone(),
            name: self.name.clone(),
        }
    }
}

/// A host Jiji treats as GitHub: github.com or an Enterprise subdomain.
pub open spec fn is_github_host_spec(host: Seq<char>) -> bool {
    host == "github.com"@ || ends_with(host, ".github.com"@)
}

/// `host[:port]` → `host`, when the part after the last colon is a port.
pub open spec fn strip_ssh_port_spec(host: Seq<char>) -> Seq<char> {
    match rsplit_once(host, ':') {
        Some((name, port)) => if name.len() > 0 && all_ascii_digits(port) {
            name
        } else {
            host
        },
        None => host,
    }
}

/// The host and path of a remote URL, for the schemes Jiji understands.
pub open spec fn split_host_and_path_spec(url: Seq<char>) -> Option<(Seq<char>, Seq<char>)> {
    match strip_prefix(url, "git@"@) {
        Some(rest) => split_once(rest, ':'),
        None => match strip_prefix(url, "ssh://git@"@) {
            Some(rest) => match split_once(rest, '/') {
                Some((host, path)) => Some((strip_ssh_port_spec(host), path)),
                None => None,
            },
            None => match strip_prefix(url, "https://"@) {
                Some(rest) => split_once(rest, '/'),
                None => match strip_prefix(url, "http://"@) {
                    Some(rest) => split_once(rest, '/'),
                    None => None,
                },
            },
        },
    }
}

/// Owner and name from the path part of a URL.
pub open spec fn parse_owner_name_spec(path: Seq<char>) -> Option<(Seq<char>, Seq<char>)> {
    let p = match strip_suffix(path, ".git"@) {
        Some(t) => t,
        None => path,
    };
    match split_once(p, '/') {
        Some((owner, rest)) => {
            let first = match split_once(rest, '/') {
                Some((head, _)) => head,
                None => rest,
            };
            let name = trim(first);
            let owner = trim(owner);
            if owner.len() == 0 || name.len() == 0 {
                None
            } else {
                Some((owner, name))
            }
        },
        None => None,
    }
}

/// Host, owner and name of a GitHub remote URL; `None` for anything else.
pub open spec fn parse_github_url_spec(url: Seq<char>) -> Option<(Seq<char>, Seq<char>, Seq<char>)> {
    match split_host_and_path_spec(url) {
        Some((host, path)) => if is_github_host_spec(host) {
            match parse_owner_name_spec(path) {
                Some((owner, name)) => Some((host, owner, name)),
                None => None,
            }
        } else {
            None
        },
        None => None,
    }
}

/// The repo a parse answered matches the parts the spec names.
pub open spec fn repo_matches(
    r: ForgeRepo,
    remote: Seq<char>,
    parts: (Seq<char>, Seq<char>, Seq<char>),
) -> bool {
    &&& r.provider == ForgeProvider::GitHub
    &&& r.remote@ == remote
    &&& r.host@ == parts.0
    &&& r.owner@ == parts.1
    &&& r.name@ == parts.2
}

fn is_github_host(host: &[char]) -> (r: bool)
    ensures
        r == is_github_host_spec(host@),
{
    let gh = chars_of("github.com");
    let sub = chars_of(".github.com");
    chars_eq(host, &gh) || ends_with_chars(host, &sub)
}

fn strip_ssh_port(host: Vec<char>) -> (r: Vec<char>)
    ensures
        r@ == strip_ssh_port_spec(host@),
{
    match rsplit_once_chars(&host, ':') {
        Some((name, port)) => {
            if name.len() > 0 && all_digits(&port) {
                name
            } else {
                host
            }
        },
        None => host,
    }
}

fn split_host_and_path(url: &[char]) -> (r: Option<(Vec<char>, Vec<char>)>)
    ensures
        match r {
            Some((h, p)) => split_host_and_path_spec(url@) == Some((h@, p@)),
            None => split_host_and_path_spec(url@) is None,
        },
{
    // SCP-style SSH: git@host:path
    let scp = chars_of("git@");
    if let Some(rest) = strip_prefix_chars(url, &scp) {
        return split_once_chars(&rest, ':');
    }
    // ssh://git@host[:port]/path
    let ssh = chars_of("ssh://git@");
    if let Some(rest) = strip_prefix_chars(url, &ssh) {
        return match split_once_chars(&rest, '/') {
            Some((host, path)) => Some((strip_ssh_port(host), path)),
            None => None,
        };
    }
    let https = chars_of("https://");
    if let Some(rest) = strip_prefix_chars(url, &https) {
        return split_once_chars(&rest, '/');
    }
    let http = chars_of("http://");
    if let Some(rest) = strip_prefix_chars(url, &http) {
        return split_once_chars(&rest, '/');
    }
    None
}

fn parse_owner_name(path: &[char]) -> (r: Option<(Vec<char>, Vec<char>)>)
    ensures
        match r {
            Some((o, n)) => parse_owner_name_spec(path@) == Some((o@, n@)),
            None => parse_owner_name_spec(path@) is None,
        },
{
    let git = chars_of(".git");
    let p = match strip_suffix_chars(path, &git) {
        Some(t) => t,
        None => slice_chars(path, 0, path.len()),
    };
    assert(path@.subrange(0, path@.len() as int) =~= path@);
    match split_once_chars(&p, '/') {
        Some((owner, rest)) => {
            let first = match split_once_chars(&rest, '/') {
                Some((head, _)) => head,
                None => rest,
            };
            let name = trim_chars(&first);
            let owner = trim_chars(&owner);
            if owner.len() == 0 || name.len() == 0 {
                None
            } else {
                Some((owner, name))
            }
        },
        None => None,
    }
}

/// Parse a GitHub remote URL into a repo identity.
///
/// Supports HTTPS (`https://github.com/owner/repo.git`),
/// SCP-style SSH (`git@github.com:owner/repo.git`),
/// `ssh://git@github.com[:port]/owner/repo.git`,
/// and GitHub Enterprise subdomains (`company.github.com`).
pub fn parse_github_url(remote_name: &str, url: &str) -> (r: Option<ForgeRepo>)
    ensures
        match r {
            Some(repo) => parse_github_url_spec(url@) matches Some(parts) && repo_matches(
                repo,
                remote_name@,
                parts,
            ),
            None => parse_github_url_spec(url@) is None,
        },
{
    let u = chars_of(url);
    let (host, path) = match split_host_and_path(&u) {
        Some(hp) => hp,
        None => return None,
    };
    if !is_github_host(&host) {
        return None;
    }
    let (owner, name) = match parse_owner_name(&path) {
        Some(on) => on,
        None => return None,
    };
    Some(
        ForgeRepo {
            provider: ForgeProvider::GitHub,
            remote: owned(remote_name),
            host: string_of(&host),
            owner: string_of(&owner),
            name: string_of(&name),
        },
    )
}

/// The detection rank of a remote name: origin, then upstream, then the rest.
pub open spec fn remote_rank_spec(name: Seq<char>) -> nat {
    if name == "origin"@ {
        0
    } else if name == "upstream"@ {
        1
    } else {
        2
    }
}

/// Remote `a` sorts strictly before remote `b`.
pub open spec fn ranks_before(a: Seq<char>, b: Seq<char>) -> bool {
    remote_rank_spec(a) < remote_rank_spec(b) || (remote_rank_spec(a) == remote_rank_spec(b)
        && seq_less(a, b))
}

/// The GitHub repo a remote list names, for every prefix of the list:
/// the first remote of the best rank, by name within a rank.
pub open spec fn detect_upto(remotes: Seq<(Seq<char>, Seq<char>)>, n: int) -> Option<
    (Seq<char>, (Seq<char>, Seq<char>, Seq<char>)),
>
    decreases n,
{
    if n <= 0 {
        None
    } else {
        let prev = detect_upto(remotes, n - 1);
        let (name, url) = remotes[n - 1];
        match parse_github_url_spec(url) {
            None => prev,
            Some(parts) => match prev {
                None => Some((name, parts)),
                Some((best, best_parts)) => if ranks_before(name, best) {
                    Some((name, parts))
                } else {
                    Some((best, best_parts))
                },
            },
        }
    }
}

/// The views of a remote list.
pub open spec fn remotes_view(remotes: Seq<(&str, &str)>) -> Seq<(Seq<char>, Seq<char>)> {
    remotes.map_values(|r: (&str, &str)| (r.0@, r.1@))
}

fn remote_rank(name: &[char]) -> (r: u8)
    ensures
        r as nat == remote_rank_spec(name@),
{
    let origin = chars_of("origin");
    let upstream = chars_of("upstream");
    if chars_eq(name, &origin) {
        0
    } else if chars_eq(name, &upstream) {
        1
    } else {
        2
    }
}

/// Pick the GitHub repo Jiji should talk to from a repo's git remotes
/// (`(name, url)` pairs), ranked like jj ranks remotes for `trunk()`:
/// origin, then upstream, then the rest in name order. Non-GitHub remotes
/// are skipped.
pub fn detect_github_repo(remotes: &[(&str, &str)]) -> (r: Option<ForgeRepo>)
    ensures
        match r {
            Some(repo) => detect_upto(remotes_view(remotes@), remotes@.len() as int) matches Some(
                (name, parts),
            ) && repo_matches(repo, name, parts),
            None => detect_upto(remotes_view(remotes@), remotes@.len() as int) is None,
        },
{
    let ghost rv = remotes_view(remotes@);
    let mut best: Option<ForgeRepo> = None;
    let mut i: usize = 0;
    while i < remotes.len()
        invariant
            i <= remotes@.len(),
            rv == remotes_view(remotes@),
            match best {
                Some(repo) => detect_upto(rv, i as int) matches Some((name, parts)) && repo_matches(
                    repo,
                    name,
                    parts,
                ),
                None => detect_upto(rv, i as int) is None,
            },
        decreases remotes@.len() - i,
    {
        let (name, url) = remotes[i];
        assert(rv[i as int] == (name@, url@));
        let candidate = parse_github_url(name, url);
        match candidate {
            None => {},
            Some(c) => {
                let replace = match &best {
                    None => true,
                    Some(b) => {
                        let cn = chars_of(c.remote.as_str());
                        let bn = chars_of(b.remote.as_str());
                        let cr = remote_rank(&cn);
                        let br = remote_rank(&bn);
                        cr < br || (cr == br && chars_less(&cn, &bn))
                    },
                };
                if replace {
                    best = Some(c);
                }
            },
        }
        i += 1;
    }
    best
}

/// The host has no GitHub remote to act on. A helper so every caller words
/// the refusal identically.
pub fn no_github_remote() -> (r: ForgeError)
    ensures
        r matches ForgeError::NotFound(m) && m@
            == "this repository has no GitHub remote; add one with `jj git remote add`"@,
{
    ForgeError::NotFound(owned("this repository has no GitHub remote; add one with `jj git remote add`"))
}

} // verus!
