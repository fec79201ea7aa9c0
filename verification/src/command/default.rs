//! Picking a node from the listing and connecting to it.

use vstd::prelude::*;
use vstd::string::*;
use crate::app::App;
use crate::command::connect::launch;
use crate::command::connect::spec_launch;
use crate::command::connect::Launch;
use crate::command::connect::LaunchView;
use crate::error::Failure;
use crate::error::FailureView;
use crate::text::first_word;
use crate::text::leading_word;
use crate::utils::profile::Profile;
use crate::utils::profile::ProfileView;
use crate::utils::profiles::views;

verus! {

/// The command that runs where none is named.
#[derive(Clone, Copy, Debug, PartialEq, Eq, Structural)]
pub struct Default {}

/// What follows from the line that the user picked, `None` where the user
/// picked none: the host is the first word of the line, the settings are
/// those that `app` and the profiles give for this host, and with them the
/// host is reached.
pub open spec fn spec_run(
    app: App,
    s: Seq<ProfileView>,
    selection: Option<Seq<char>>,
    os_user: Seq<char>,
) -> Result<LaunchView, FailureView> {
    match selection {
        None => Ok(LaunchView::Nothing),
        Some(line) => match app.spec_context(s, Some(first_word(line)), os_user) {
            Err(e) => Err(e),
            Ok(context) => spec_launch(first_word(line), context),
        },
    }
}

impl Default {
    /// The host of a line of the listing: its first word.
    pub fn picked_host(line: &str) -> (res: &str)
        ensures
            res@ == first_word(line@),
    {
        leading_word(line)
    }

    /// What follows from the line that the user picked.
    pub fn run(app: &App, profiles: &[Profile], selection: Option<&str>, os_user: String) -> (res:
        Result<Launch, Failure>)
        ensures
            match res {
                Ok(launch) => spec_run(*app, views(profiles@), selection.deep_view(), os_user@)
                    == Ok::<LaunchView, FailureView>(launch@),
                Err(f) => spec_run(*app, views(profiles@), selection.deep_view(), os_user@)
                    == Err::<LaunchView, FailureView>(f@),
            },
    {
        let line = match selection {
            Some(line) => line,
            None => {
                return Ok(Launch::Nothing);
            },
        };
        let host = Default::picked_host(line);
        match app.context_for(profiles, Some(host), os_user) {
            Err(e) => Err(e),
            Ok(context) => launch(host, &context),
        }
    }
}

} // verus!
