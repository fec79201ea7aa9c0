//! Adding a profile to the store and removing one from it.

use vstd::prelude::*;
use vstd::string::*;
use crate::error::BeamError;
use crate::error::Failure;
use crate::error::FailureView;
use crate::text::first_word;
use crate::text::leading_word;
use crate::utils::config::Config;
use crate::utils::config::ConfigView;
use crate::utils::profile::Profile;
use crate::utils::profile::ProfileView;
use crate::utils::profiles::first_named;
use crate::utils::profiles::index_of;
use crate::utils::profiles::spec_remove;
use crate::utils::profiles::views;
use crate::utils::profiles::Profiles;

verus! {

/// The request to add a profile.
#[derive(Debug, PartialEq, Eq)]
pub struct Add {
    /// The name of the new profile, where the command line gives it.
    pub profile: Option<String>,
}

/// A profile that holds nothing but its name and the mark of the default.
pub open spec fn fresh_profile(name: Seq<char>, default: bool) -> ProfileView {
    ProfileView { name, default, host_pattern: None, priority: None, config: ConfigView::empty() }
}

impl Add {
    /// The profile that is added to the profiles `s`. A name from the
    /// command line must be new; else the name is the one that the user
    /// entered. The first profile of a store is the default, another one
    /// where the user wants it to be. The failure of a name that is taken
    /// names it.
    pub open spec fn spec_run(
        self,
        s: Seq<ProfileView>,
        entered: Option<Seq<char>>,
        wants_default: bool,
    ) -> Result<ProfileView, FailureView> {
        match self.profile.deep_view() {
            Some(name) => if first_named(s, name) < s.len() {
                Err(FailureView { error: BeamError::ProfileExists, subject: name })
            } else {
                Ok(fresh_profile(name, s.len() == 0 || wants_default))
            },
            None => match entered {
                Some(name) => Ok(fresh_profile(name, s.len() == 0 || wants_default)),
                None => Err(
                    FailureView { error: BeamError::ProfileNotFound, subject: Seq::empty() },
                ),
            },
        }
    }

    /// Whether the profile that is added is the default whatever the user
    /// wants: it is the first of the store.
    pub fn must_be_default(profiles: &[Profile]) -> (res: bool)
        ensures
            res == (profiles.len() == 0),
    {
        profiles.len() == 0
    }

    /// The profile that is added to `profiles`, where `entered` is the name
    /// that the user entered and `wants_default` what the user answered.
    pub fn run(&self, profiles: &[Profile], entered: Option<String>, wants_default: bool) -> (res:
        Result<Profile, Failure>)
        ensures
            match res {
                Ok(profile) => self.spec_run(views(profiles@), entered.deep_view(), wants_default)
                    == Ok::<ProfileView, FailureView>(profile@),
                Err(f) => self.spec_run(views(profiles@), entered.deep_view(), wants_default)
                    == Err::<ProfileView, FailureView>(f@),
            },
    {
        let default = Add::must_be_default(profiles) || wants_default;
        let name = match &self.profile {
            Some(name) => {
                if Profiles::find_named(profiles, name.as_str()).is_some() {
                    return Err(Failure::new(BeamError::ProfileExists, name.as_str()));
                }
                name.clone()
            },
            None => match entered {
                Some(name) => name,
                None => {
                    return Err(
                        Failure { error: BeamError::ProfileNotFound, subject: String::new() },
                    );
                },
            },
        };
        Ok(Profile::new(name, default, None, Some(Config::default())))
    }
}

/// The request to remove a profile.
#[derive(Debug, PartialEq, Eq)]
pub struct Remove {
    /// The name of the profile, where the command line gives it.
    pub profile: Option<String>,
}

impl Remove {
    /// The name of the profile that is removed: the one from the command
    /// line, else the first word of the entry that the user chose from the
    /// list of names.
    pub open spec fn spec_name(self, chosen: Option<Seq<char>>) -> Option<Seq<char>> {
        match self.profile.deep_view() {
            Some(name) => Some(name),
            None => match chosen {
                Some(entry) => Some(first_word(entry)),
                None => None,
            },
        }
    }

    /// The name of the profile that is removed.
    pub fn name(&self, chosen: Option<&str>) -> (res: Option<String>)
        ensures
            res.deep_view() == self.spec_name(chosen.deep_view()),
    {
        match &self.profile {
            Some(name) => Some(name.clone()),
            None => match chosen {
                Some(entry) => Some(String::from_str(leading_word(entry))),
                None => None,
            },
        }
    }

    /// Whether removing the profile called `name` takes the name of a new
    /// default profile: it is the default of the store.
    pub fn needs_replacement(store: &Profiles, name: &str) -> (res: bool)
        ensures
            res == (index_of(store@, name@) matches Some(k) && store@[k].default),
    {
        match store.find(name) {
            Some(profile) => profile.default,
            None => false,
        }
    }

    /// Removes the profile from `store` and gives its name. `chosen` is the
    /// entry that the user chose where the command line names no profile,
    /// `replacement` the profile that becomes the default where the default
    /// is removed. On a failure the store is as it was.
    pub fn run(&self, store: &mut Profiles, chosen: Option<&str>, replacement: Option<&str>) -> (res:
        Result<String, Failure>)
        ensures
            match res {
                Ok(name) => self.spec_name(chosen.deep_view()) == Some(name@) && spec_remove(
                    old(store)@,
                    name@,
                    replacement.deep_view(),
                ) == Ok::<Seq<ProfileView>, FailureView>(final(store)@),
                Err(f) => final(store)@ == old(store)@ && match self.spec_name(
                    chosen.deep_view(),
                ) {
                    Some(name) => spec_remove(old(store)@, name, replacement.deep_view()) == Err::<
                        Seq<ProfileView>,
                        FailureView,
                    >(f@),
                    None => f@ == (FailureView {
                        error: BeamError::ProfileNotFound,
                        subject: Seq::empty(),
                    }),
                },
            },
    {
        let name = match self.name(chosen) {
            Some(name) => name,
            None => {
                return Err(Failure { error: BeamError::ProfileNotFound, subject: String::new() });
            },
        };
        match store.remove(name.as_str(), replacement) {
            Ok(()) => Ok(name),
            Err(e) => Err(e),
        }
    }
}

} // verus!
