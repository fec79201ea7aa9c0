//! A named bundle of connection preferences.

use vstd::prelude::*;
use crate::utils::config::Config;
use crate::utils::config::ConfigView;
use crate::error::BeamError;
use crate::error::Failure;
use crate::error::FailureView;
use crate::utils::profiles::index_of;
use crate::utils::profiles::Profiles;

verus! {

/// A profile: preferences under a name, optionally bound to the hosts whose
/// name a pattern matches.
#[derive(Debug, PartialEq, Eq)]
pub struct Profile {
    pub name: String,
    pub default: bool,
    pub host_pattern: Option<String>,
    pub priority: Option<i32>,
    pub config: Config,
}

/// What a `Profile` holds, with every text as its sequence of characters.
pub struct ProfileView {
    pub name: Seq<char>,
    pub default: bool,
    pub host_pattern: Option<Seq<char>>,
    pub priority: Option<i32>,
    pub config: ConfigView,
}

impl View for Profile {
    type V = ProfileView;

    open spec fn view(&self) -> ProfileView {
        ProfileView {
            name: self.name@,
            default: self.default,
            host_pattern: self.host_pattern.deep_view(),
            priority: self.priority,
            config: self.config@,
        }
    }
}

impl Clone for Profile {
    fn clone(&self) -> (res: Profile)
        ensures
            res@ == self@,
    {
        Profile {
            name: self.name.clone(),
            default: self.default,
            host_pattern: self.host_pattern.clone(),
            priority: self.priority,
            config: self.config.clone(),
        }
    }
}

impl Profile {
    /// A profile without priority. Without `config` it holds no preference.
    pub fn new(
        name: String,
        default: bool,
        host_pattern: Option<String>,
        config: Option<Config>,
    ) -> (res: Profile)
        ensures
            res@ == (ProfileView {
                name: name@,
                default,
                host_pattern: host_pattern.deep_view(),
                priority: None,
                config: match config {
                    Some(c) => c@,
                    None => ConfigView::empty(),
                },
            }),
    {
        let config = match config {
            Some(c) => c,
            None => Config::default(),
        };
        Profile { name, default, host_pattern, priority: None, config }
    }

    /// The profile that `store` holds under `name`. Where it holds none,
    /// the failure names the profile that was asked for.
    pub fn get(name: &str, store: &Profiles) -> (res: Result<Profile, Failure>)
        ensures
            match res {
                Ok(profile) => index_of(store@, name@) matches Some(k) && profile@ == store@[k]
                    && profile@.name == name@,
                Err(f) => index_of(store@, name@) is None && f@ == (FailureView {
                    error: BeamError::ProfileNotFound,
                    subject: name@,
                }),
            },
    {
        match store.find(name) {
            Some(profile) => Ok(profile.clone()),
            None => Err(Failure::new(BeamError::ProfileNotFound, name)),
        }
    }
}

} // verus!
