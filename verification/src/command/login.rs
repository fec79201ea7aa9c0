//! Logging in where no session is valid.

use vstd::prelude::*;
use vstd::string::*;
use crate::context::ContextView;
use crate::context::RuntimeContext;
use crate::teleport::cli::is_logged_in;
use crate::teleport::cli::login_args;
use crate::teleport::cli::spec_is_logged_in;
use crate::teleport::cli::spec_login_args;

verus! {

/// The request to log in.
#[derive(Clone, Copy, Debug, PartialEq, Eq, Structural)]
pub struct Login {}

/// The arguments of the login that `context` asks for where `status` shows
/// no valid session for its proxy; nothing where it shows one.
pub open spec fn spec_run(context: ContextView, status: Seq<char>) -> Option<Seq<Seq<char>>> {
    if spec_is_logged_in(context.config.proxy, status) {
        None
    } else {
        Some(spec_login_args(context.config.proxy, context.config.auth, context.config.username))
    }
}

impl Login {
    /// The arguments of the login that is needed, given the status that the
    /// tool of the proxy printed; `None` where no login is needed.
    pub fn run(&self, context: &RuntimeContext, status: &str) -> (res: Option<Vec<String>>)
        ensures
            res.deep_view() == spec_run(context@, status@),
    {
        if is_logged_in(context.config.proxy.as_str(), status) {
            None
        } else {
            Some(
                login_args(
                    context.config.proxy.as_str(),
                    context.config.auth.as_ref(),
                    context.config.username.as_str(),
                ),
            )
        }
    }
}

} // verus!
