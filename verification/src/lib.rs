//! Shared remote workflow engine for PR stacks, landing, and auto-land:
//! the forge logic behind Jiji, verified.

use vstd::prelude::*;

pub mod auth;
pub mod autoland;
pub mod ci;
pub mod codec;
pub mod comment;
pub mod error;
pub mod github;
pub mod land;
pub mod laws;
pub mod pr;
pub mod reconcile;
pub mod session;
pub mod ship;
pub mod snapshot;
pub mod submit;
pub mod remote;
pub mod template;
pub mod text;

verus! {

} // verus!
