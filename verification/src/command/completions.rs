//! The shells for which completions exist.

use vstd::prelude::*;
use crate::error::BeamError;
use crate::error::Failure;
use crate::error::FailureView;
use crate::text::text_eq;

verus! {

/// A shell for which completions can be printed.
#[derive(Clone, Copy, Debug, PartialEq, Eq, Structural)]
pub enum Shell {
    Bash,
    Fish,
    Zsh,
}

/// The request for the completions of a shell.
#[derive(Debug, PartialEq, Eq)]
pub struct Completions {
    /// The shell to generate completions for.
    pub shell: String,
}

/// The shell that goes by `name`; for any other name the failure that
/// names it.
pub open spec fn spec_shell(name: Seq<char>) -> Result<Shell, FailureView> {
    if name == "bash"@ {
        Ok(Shell::Bash)
    } else if name == "fish"@ {
        Ok(Shell::Fish)
    } else if name == "zsh"@ {
        Ok(Shell::Zsh)
    } else {
        Err(FailureView { error: BeamError::UnsupportedShell, subject: name })
    }
}

impl Completions {
    /// The shell whose completions are asked for.
    pub fn run(&self) -> (res: Result<Shell, Failure>)
        ensures
            match res {
                Ok(shell) => spec_shell(self.shell@) == Ok::<Shell, FailureView>(shell),
                Err(f) => spec_shell(self.shell@) == Err::<Shell, FailureView>(f@),
            },
    {
        let name = self.shell.as_str();
        if text_eq(name, "bash") {
            Ok(Shell::Bash)
        } else if text_eq(name, "fish") {
            Ok(Shell::Fish)
        } else if text_eq(name, "zsh") {
            Ok(Shell::Zsh)
        } else {
            Err(Failure::new(BeamError::UnsupportedShell, name))
        }
    }
}

} // verus!
