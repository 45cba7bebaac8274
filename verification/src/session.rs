//! What a host remembers between requests: the login the active token
//! last verified as, and the error shape commands answer with.

use vstd::prelude::*;

use crate::auth::{ForgeAuth, ForgeStatus, TokenSource};
use crate::error::{error_code, error_message, ForgeError};
use crate::land::{land_action_views, same_land_actions, LandPlan};
use crate::reconcile::opt_view;
use crate::remote::ForgeRepo;
use crate::snapshot::RepoSnapshot;
use crate::submit::{action_views, same_submit_actions, SubmitPlan};
use crate::text::{chars_of, owned, string_of, trim, trim_chars};

verus! {

/// A failed command, as the UI receives it: a stable code and a
/// plain-language message.
#[derive(Debug, Clone, PartialEq, Eq)]
pub struct CommandError {
    pub code: String,
    pub message: String,
}

impl CommandError {
    /// An error with this code and message.
    pub fn new(code: &str, message: String) -> (r: CommandError)
        ensures
            r.code@ == code@,
            r.message == message,
    {
        CommandError { code: crate::text::owned(code), message }
    }

    /// A forge failure as a command error.
    pub fn from_forge(err: &ForgeError) -> (r: CommandError)
        ensures
            r.code@ == error_code(*err),
            r.message@ == error_message(*err),
    {
        CommandError::new(err.code(), err.message())
    }
}

/// Session memory for the forge connection: the login the active token
/// last verified as, keyed by token source — switching sources
/// re-verifies.
#[derive(Debug)]
pub struct ForgeState {
    verified: Option<(TokenSource, String)>,
}

impl ForgeState {
    /// The remembered verification.
    pub closed spec fn remembered(&self) -> Option<(TokenSource, Seq<char>)> {
        match self.verified {
            Some((s, l)) => Some((s, l@)),
            None => None,
        }
    }

    /// Nothing verified yet.
    pub fn new() -> (r: ForgeState)
        ensures
            r.remembered() is None,
    {
        ForgeState { verified: None }
    }

    /// Remember the login a token from `source` verified as.
    pub fn remember(&mut self, source: TokenSource, login: String)
        ensures
            final(self).remembered() == Some((source, login@)),
    {
        self.verified = Some((source, login));
    }

    /// Forget the verification.
    pub fn forget(&mut self)
        ensures
            final(self).remembered() is None,
    {
        self.verified = None;
    }

    /// The login remembered for `source`; a verification made with
    /// another source does not count.
    pub fn login_for(&self, source: TokenSource) -> (r: Option<String>)
        ensures
            crate::reconcile::opt_view(r) == match self.remembered() {
                Some((s, l)) => if s == source {
                    Some(l)
                } else {
                    None
                },
                None => None,
            },
    {
        match &self.verified {
            Some((s, l)) => if *s == source {
                Some(l.clone())
            } else {
                None
            },
            None => None,
        }
    }
}


/// The answer of a command that needs an open repository when none is.
pub fn no_repo_open() -> (r: CommandError)
    ensures
        r.code@ == "no_repo_open"@,
        r.message@ == "No repository is currently open"@,
{
    CommandError::new("no_repo_open", owned("No repository is currently open"))
}

/// The open repository's path, from the latest published snapshot.
pub fn open_repo_path(current: Option<&RepoSnapshot>) -> (r: Result<String, CommandError>)
    ensures
        match current {
            Some(s) => r matches Ok(p) && p@ == s.repo_path@,
            None => r matches Err(e) && e.code@ == "no_repo_open"@ && e.message@
                == "No repository is currently open"@,
        },
{
    match current {
        Some(s) => Ok(s.repo_path.clone()),
        None => Err(no_repo_open()),
    }
}

/// Token storage keys off the forge host, so a GitHub Enterprise remote
/// keeps its token apart from github.com's.
pub fn keychain_host(repo: Option<&ForgeRepo>) -> (r: String)
    ensures
        r@ == match repo {
            Some(repo) => repo.host@,
            None => "github.com"@,
        },
{
    match repo {
        Some(repo) => repo.host.clone(),
        None => owned("github.com"),
    }
}

/// The token pasted into the in-app login, trimmed; nothing entered is
/// refused before anything is sent or stored.
pub fn login_token(token: &str) -> (r: Result<String, ForgeError>)
    ensures
        trim(token@).len() == 0 ==> (r matches Err(ForgeError::AuthFailed(m)) && m@ == "no token was entered"@),
        trim(token@).len() > 0 ==> (r matches Ok(t) && t@ == trim(token@)),
{
    let t = trim_chars(&chars_of(token));
    if t.len() == 0 {
        Err(ForgeError::AuthFailed(owned("no token was entered")))
    } else {
        Ok(string_of(&t))
    }
}

/// Connection state without touching the network: the detected repo,
/// where a token would come from, and the login this session verified for
/// that same source.
pub fn assemble_status(repo: Option<ForgeRepo>, source: Option<TokenSource>, forge: &ForgeState) -> (r: ForgeStatus)
    ensures
        r.repo == repo,
        r.auth.source == source,
        opt_view(r.auth.login) == match (source, forge.remembered()) {
            (Some(s), Some((v, l))) => if s == v {
                Some(l)
            } else {
                None
            },
            _ => None,
        },
{
    let login = match source {
        Some(s) => forge.login_for(s),
        None => None,
    };
    ForgeStatus { repo, auth: ForgeAuth { source, login } }
}

/// The refusal of a plan the world moved under.
pub open spec fn stale_message(verb: Seq<char>) -> Seq<char> {
    "The stack or its pull requests changed since this plan was made; review the updated plan and "@ + verb
        + " again"@
}

/// A confirmed submit plan runs only while a fresh derivation plans the
/// same actions; otherwise the stack or GitHub moved under the panel.
pub fn confirm_submit(fresh: &SubmitPlan, confirmed: &SubmitPlan) -> (r: Result<(), CommandError>)
    ensures
        action_views(fresh.actions@) == action_views(confirmed.actions@) ==> r is Ok,
        action_views(fresh.actions@) != action_views(confirmed.actions@) ==> (r matches Err(e) && e.code@
            == "plan_stale"@ && e.message@ == stale_message("publish"@)),
{
    if same_submit_actions(fresh.actions.as_slice(), confirmed.actions.as_slice()) {
        Ok(())
    } else {
        let m = owned("The stack or its pull requests changed since this plan was made; review the updated plan and publish again");
        proof {
            reveal_strlit("The stack or its pull requests changed since this plan was made; review the updated plan and publish again");
            reveal_strlit("The stack or its pull requests changed since this plan was made; review the updated plan and ");
            reveal_strlit("publish");
            reveal_strlit(" again");
            assert(m@ =~= stale_message("publish"@));
        }
        Err(CommandError::new("plan_stale", m))
    }
}

/// A confirmed land plan runs only while a fresh derivation plans the
/// same actions.
pub fn confirm_land(fresh: &LandPlan, confirmed: &LandPlan) -> (r: Result<(), CommandError>)
    ensures
        land_action_views(fresh.actions@) == land_action_views(confirmed.actions@) ==> r is Ok,
        land_action_views(fresh.actions@) != land_action_views(confirmed.actions@) ==> (r matches Err(e)
            && e.code@ == "plan_stale"@ && e.message@ == stale_message("land"@)),
{
    if same_land_actions(fresh.actions.as_slice(), confirmed.actions.as_slice()) {
        Ok(())
    } else {
        let m = owned("The stack or its pull requests changed since this plan was made; review the updated plan and land again");
        proof {
            reveal_strlit("The stack or its pull requests changed since this plan was made; review the updated plan and land again");
            reveal_strlit("The stack or its pull requests changed since this plan was made; review the updated plan and ");
            reveal_strlit("land");
            reveal_strlit(" again");
            assert(m@ =~= stale_message("land"@));
        }
        Err(CommandError::new("plan_stale", m))
    }
}

} // verus!
