//! What the user asks for on the command line, and the settings that
//! follow from it and from the stored profiles.

use vstd::prelude::*;
use vstd::string::*;
use crate::config::Config;
use crate::config::PortForwardingConfig;
use crate::config::PortForwardingView;
use crate::config::SettingsView;
use crate::config::built_view;
use crate::config::os_username;
use crate::config::BuilderView;
use crate::config::ConfigBuilder;
use crate::context::ContextView;
use crate::context::RuntimeContext;
use crate::context::RuntimeFlags;
use crate::context::RuntimeMeta;
use crate::error::BeamError;
use crate::error::Failure;
use crate::error::FailureView;
use crate::utils::config::ConfigView;
use crate::utils::profile::Profile;
use crate::utils::profile::ProfileView;
use crate::utils::profiles::first_named;
use crate::utils::profiles::spec_get_matching;
use crate::utils::profiles::spec_verify;
use crate::utils::profiles::view_some;
use crate::utils::profiles::views;
use crate::utils::profiles::Profiles;

verus! {

/// What the user can ask for besides picking a node.
#[derive(Debug, PartialEq, Eq)]
pub enum Command {
    /// Connect to the host.
    Connect { host: String },
    /// List the nodes, in the format if one is given.
    List { format: Option<String> },
    /// Print the completions for the shell.
    Completions { shell: String },
    /// Log in to the proxy.
    Login,
    /// Log out.
    Logout,
}

/// The command line.
#[derive(Debug, PartialEq, Eq)]
pub struct App {
    /// The profile to use.
    pub profile: Option<String>,
    /// The user to connect as.
    pub user: Option<String>,
    /// The proxy to use.
    pub proxy: Option<String>,
    /// The authentication method to use.
    pub auth: Option<String>,
    /// Whether the cached directory is set aside.
    pub clear_cache: bool,
    /// What is asked for; nothing asks for the picker.
    pub cmd: Option<Command>,
    /// Whether the command is printed instead of run.
    pub tsh: bool,
}

/// The name that a failure of the settings carries: that of the profile
/// that the command line asks for, none where it asks for none.
pub open spec fn asked_profile(explicit: Option<Seq<char>>) -> Seq<char> {
    match explicit {
        Some(name) => name,
        None => Seq::empty(),
    }
}

/// The profile that the settings start from: the one that is named; else
/// the one that applies to the host; else the default of the store. An
/// empty store gives none.
pub open spec fn spec_base_profile(
    explicit: Option<Seq<char>>,
    hostname: Option<Seq<char>>,
    s: Seq<ProfileView>,
) -> Result<Option<ProfileView>, BeamError> {
    match explicit {
        Some(name) => if first_named(s, name) < s.len() {
            Ok(Some(s[first_named(s, name)]))
        } else {
            Err(BeamError::ProfileNotFound)
        },
        None => match hostname {
            Some(host) => match spec_get_matching(host, s) {
                Err(e) => Err(e),
                Ok(Some(profile)) => Ok(Some(profile)),
                Ok(None) => spec_default_profile(s),
            },
            None => spec_default_profile(s),
        },
    }
}

/// The default profile of the store, none where the store is empty.
pub open spec fn spec_default_profile(s: Seq<ProfileView>) -> Result<
    Option<ProfileView>,
    BeamError,
> {
    if s.len() == 0 {
        Ok(None)
    } else {
        match spec_verify(s) {
            Ok(profile) => Ok(Some(profile)),
            Err(e) => Err(e),
        }
    }
}

/// The builder that holds merged preferences. The port forwarding is
/// always given: it is off where the preferences do not turn it on.
pub open spec fn builder_of(merged: ConfigView) -> BuilderView {
    BuilderView {
        username: merged.username,
        proxy: merged.proxy,
        auth: merged.auth,
        cache_ttl: merged.cache_ttl,
        label_whitelist: merged.label_whitelist,
        port_forwarding_config: Some(
            PortForwardingView {
                enabled: match merged.enable_port_forwarding {
                    Some(enabled) => enabled,
                    None => false,
                },
                listen_port: merged.listen_port,
                remote_port: merged.remote_port,
                remote_host: merged.remote_host,
            },
        ),
    }
}

/// The settings that follow from merged preferences: those that the
/// builder gives. The proxy must be among the preferences; the user falls
/// back to `os_user`, the time to live of the cache to a day, and the port
/// forwarding to none.
pub open spec fn spec_settings(merged: ConfigView, os_user: Seq<char>) -> Result<
    SettingsView,
    BeamError,
> {
    builder_of(merged).spec_build(os_user)
}

/// The settings that follow from merged preferences.
pub fn settings(merged: crate::utils::config::Config, os_user: String) -> (res: Result<
    Config,
    BeamError,
>)
    ensures
        built_view(res) == spec_settings(merged@, os_user@),
        merged@.proxy is None ==> res == Err::<Config, BeamError>(BeamError::MissingProxy),
        merged@.proxy is Some ==> res is Ok,
{
    let builder = ConfigBuilder {
        username: merged.username,
        proxy: merged.proxy,
        auth: merged.auth,
        cache_ttl: merged.cache_ttl,
        label_whitelist: merged.label_whitelist,
        port_forwarding_config: Some(
            PortForwardingConfig {
                enabled: match merged.enable_port_forwarding {
                    Some(enabled) => enabled,
                    None => false,
                },
                listen_port: merged.listen_port,
                remote_port: merged.remote_port,
                remote_host: merged.remote_host,
            },
        ),
    };
    builder.build_for(os_user)
}

impl App {
    /// The preferences that the command line sets.
    pub open spec fn spec_overrides(self) -> ConfigView {
        ConfigView {
            username: self.user.deep_view(),
            proxy: self.proxy.deep_view(),
            auth: self.auth.deep_view(),
            ..ConfigView::empty()
        }
    }

    /// What the invocation runs with, given the stored profiles, the host
    /// where one is known, and the user of the operating system: for each
    /// setting what the command line says, else what the base profile says,
    /// else the fallback. A failure names the profile that the command line
    /// asks for.
    pub open spec fn spec_context(
        self,
        s: Seq<ProfileView>,
        hostname: Option<Seq<char>>,
        os_user: Seq<char>,
    ) -> Result<ContextView, FailureView> {
        match spec_base_profile(self.profile.deep_view(), hostname, s) {
            Err(e) => Err(
                FailureView { error: e, subject: asked_profile(self.profile.deep_view()) },
            ),
            Ok(base) => {
                let stored = match base {
                    Some(profile) => profile.config,
                    None => ConfigView::empty(),
                };
                match spec_settings(self.spec_overrides().merge(stored), os_user) {
                    Err(e) => Err(
                        FailureView { error: e, subject: asked_profile(self.profile.deep_view()) },
                    ),
                    Ok(config) => Ok(
                        ContextView {
                            tsh: self.tsh,
                            clear_cache: self.clear_cache,
                            profile_name: match base {
                                Some(profile) => profile.name,
                                None => Seq::empty(),
                            },
                            is_logged_in: false,
                            config,
                        },
                    ),
                }
            },
        }
    }

    /// The preferences that the command line sets.
    pub fn overrides(&self) -> (res: crate::utils::config::Config)
        ensures
            res@ == self.spec_overrides(),
    {
        crate::utils::config::Config {
            username: self.user.clone(),
            proxy: self.proxy.clone(),
            auth: self.auth.clone(),
            cache_ttl: None,
            label_whitelist: None,
            enable_port_forwarding: None,
            listen_port: None,
            remote_port: None,
            remote_host: None,
        }
    }

    /// The default profile of `profiles`, none where there is no profile.
    pub fn default_profile(profiles: &[Profile]) -> (res: Result<Option<Profile>, BeamError>)
        ensures
            match res {
                Ok(base) => spec_default_profile(views(profiles@)) == Ok::<
                    Option<ProfileView>,
                    BeamError,
                >(view_some(base)),
                Err(e) => spec_default_profile(views(profiles@)) == Err::<
                    Option<ProfileView>,
                    BeamError,
                >(e),
            },
    {
        if profiles.len() == 0 {
            return Ok(None);
        }
        match Profiles::verify_profiles_integrity(profiles) {
            Ok(profile) => Ok(Some(profile)),
            Err(e) => Err(e),
        }
    }

    /// The failure `error` of the settings, with the name of the profile
    /// that the command line asks for.
    pub fn failure(&self, error: BeamError) -> (res: Failure)
        ensures
            res@ == (FailureView { error, subject: asked_profile(self.profile.deep_view()) }),
    {
        match &self.profile {
            Some(name) => Failure::new(error, name.as_str()),
            None => Failure { error, subject: String::new() },
        }
    }

    /// The profile that the settings start from.
    pub fn base_profile(&self, profiles: &[Profile], hostname: Option<&str>) -> (res: Result<
        Option<Profile>,
        BeamError,
    >)
        ensures
            match res {
                Ok(base) => spec_base_profile(
                    self.profile.deep_view(),
                    hostname.deep_view(),
                    views(profiles@),
                ) == Ok::<Option<ProfileView>, BeamError>(view_some(base)),
                Err(e) => spec_base_profile(
                    self.profile.deep_view(),
                    hostname.deep_view(),
                    views(profiles@),
                ) == Err::<Option<ProfileView>, BeamError>(e),
            },
    {
        match &self.profile {
            Some(name) => {
                match Profiles::find_named(profiles, name.as_str()) {
                    Some(i) => Ok(Some(profiles[i].clone())),
                    None => Err(BeamError::ProfileNotFound),
                }
            },
            None => {
                match hostname {
                    Some(host) => {
                        match Profiles::matching_profiles(host, profiles) {
                            Err(e) => Err(e),
                            Ok(found) => {
                                match Profiles::select(found.as_slice()) {
                                    Some(profile) => Ok(Some(profile)),
                                    None => App::default_profile(profiles),
                                }
                            },
                        }
                    },
                    None => App::default_profile(profiles),
                }
            },
        }
    }

    /// What the invocation runs with, given the stored profiles and the
    /// host where one is known. Where neither the command line nor the base
    /// profile names a user, it is the user whom the operating system
    /// reports.
    pub fn context(&self, profiles: &[Profile], hostname: Option<&str>) -> (res: Result<
        RuntimeContext,
        Failure,
    >)
        ensures
            exists|os_user: Seq<char>|
                match res {
                    Ok(context) => #[trigger] self.spec_context(
                        views(profiles@),
                        hostname.deep_view(),
                        os_user,
                    ) == Ok::<ContextView, FailureView>(context@),
                    Err(f) => self.spec_context(views(profiles@), hostname.deep_view(), os_user)
                        == Err::<ContextView, FailureView>(f@),
                },
    {
        let os_user = os_username();
        let ghost name = os_user@;
        let res = self.context_for(profiles, hostname, os_user);
        proof {
            let expected = self.spec_context(views(profiles@), hostname.deep_view(), name);
            assert(match res {
                Ok(context) => expected == Ok::<ContextView, FailureView>(context@),
                Err(f) => expected == Err::<ContextView, FailureView>(f@),
            });
        }
        res
    }

    /// What the invocation runs with, given the stored profiles, the host
    /// where one is known, and the user of the operating system.
    pub fn context_for(&self, profiles: &[Profile], hostname: Option<&str>, os_user: String) -> (res:
        Result<RuntimeContext, Failure>)
        ensures
            match res {
                Ok(context) => self.spec_context(views(profiles@), hostname.deep_view(), os_user@)
                    == Ok::<ContextView, FailureView>(context@),
                Err(f) => self.spec_context(views(profiles@), hostname.deep_view(), os_user@)
                    == Err::<ContextView, FailureView>(f@),
            },
    {
        let base = match self.base_profile(profiles, hostname) {
            Ok(base) => base,
            Err(e) => {
                return Err(self.failure(e));
            },
        };
        let (stored, profile_name) = match base {
            Some(profile) => (profile.config, profile.name),
            None => (crate::utils::config::Config::default(), String::new()),
        };
        let config = match settings(self.overrides().merge(&stored), os_user) {
            Ok(config) => config,
            Err(e) => {
                return Err(self.failure(e));
            },
        };
        Ok(
            RuntimeContext {
                flags: RuntimeFlags { tsh: self.tsh, clear_cache: self.clear_cache },
                meta: RuntimeMeta { profile_name, is_logged_in: false },
                config,
            },
        )
    }
}

} // verus!
