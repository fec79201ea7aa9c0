//! The configuration that one invocation runs with.

use vstd::prelude::*;
use vstd::string::*;
use crate::error::BeamError;

verus! {

/// The time to live of the cached directory where none is configured: a day.
pub const DEFAULT_CACHE_TTL: u64 = 86400;

/// The forwarding of a local port to a host behind the node.
#[derive(Debug, PartialEq, Eq)]
pub struct PortForwardingConfig {
    pub enabled: bool,
    pub listen_port: Option<u16>,
    pub remote_port: Option<u16>,
    pub remote_host: Option<String>,
}

/// What a `PortForwardingConfig` holds, the host as its characters.
pub struct PortForwardingView {
    pub enabled: bool,
    pub listen_port: Option<u16>,
    pub remote_port: Option<u16>,
    pub remote_host: Option<Seq<char>>,
}

impl View for PortForwardingConfig {
    type V = PortForwardingView;

    open spec fn view(&self) -> PortForwardingView {
        PortForwardingView {
            enabled: self.enabled,
            listen_port: self.listen_port,
            remote_port: self.remote_port,
            remote_host: self.remote_host.deep_view(),
        }
    }
}

impl PortForwardingView {
    /// No forwarding.
    pub open spec fn disabled() -> PortForwardingView {
        PortForwardingView { enabled: false, listen_port: None, remote_port: None, remote_host: None }
    }
}

impl Clone for PortForwardingConfig {
    fn clone(&self) -> (res: PortForwardingConfig)
        ensures
            res@ == self@,
    {
        PortForwardingConfig {
            enabled: self.enabled,
            listen_port: self.listen_port,
            remote_port: self.remote_port,
            remote_host: self.remote_host.clone(),
        }
    }
}

impl Default for PortForwardingConfig {
    fn default() -> (res: PortForwardingConfig)
        ensures
            res@ == PortForwardingView::disabled(),
    {
        PortForwardingConfig { enabled: false, listen_port: None, remote_port: None, remote_host: None }
    }
}

/// The view of a port forwarding that may be absent.
pub open spec fn forwarding_view(o: Option<PortForwardingConfig>) -> Option<PortForwardingView> {
    match o {
        Some(f) => Some(f@),
        None => None,
    }
}

/// The settings of one invocation, every one of them decided.
#[derive(Debug, PartialEq, Eq)]
pub struct Config {
    pub username: String,
    pub proxy: String,
    pub auth: Option<String>,
    pub cache_ttl: u64,
    pub label_whitelist: Option<Vec<String>>,
    pub port_forwarding_config: Option<PortForwardingConfig>,
}

/// What a `Config` holds, with every text as its sequence of characters.
pub struct SettingsView {
    pub username: Seq<char>,
    pub proxy: Seq<char>,
    pub auth: Option<Seq<char>>,
    pub cache_ttl: u64,
    pub label_whitelist: Option<Seq<Seq<char>>>,
    pub port_forwarding_config: Option<PortForwardingView>,
}

impl View for Config {
    type V = SettingsView;

    open spec fn view(&self) -> SettingsView {
        SettingsView {
            username: self.username@,
            proxy: self.proxy@,
            auth: self.auth.deep_view(),
            cache_ttl: self.cache_ttl,
            label_whitelist: self.label_whitelist.deep_view(),
            port_forwarding_config: forwarding_view(self.port_forwarding_config),
        }
    }
}

impl SettingsView {
    /// The settings before any was decided.
    pub open spec fn blank() -> SettingsView {
        SettingsView {
            username: Seq::empty(),
            proxy: Seq::empty(),
            auth: None,
            cache_ttl: 0,
            label_whitelist: None,
            port_forwarding_config: None,
        }
    }
}

/// A copy of a port forwarding that may be absent.
fn clone_forwarding(o: &Option<PortForwardingConfig>) -> (res: Option<PortForwardingConfig>)
    ensures
        forwarding_view(res) == forwarding_view(*o),
{
    match o {
        Some(f) => Some(f.clone()),
        None => None,
    }
}

impl Clone for Config {
    fn clone(&self) -> (res: Config)
        ensures
            res@ == self@,
    {
        Config {
            username: self.username.clone(),
            proxy: self.proxy.clone(),
            auth: self.auth.clone(),
            cache_ttl: self.cache_ttl,
            label_whitelist: self.label_whitelist.clone(),
            port_forwarding_config: clone_forwarding(&self.port_forwarding_config),
        }
    }
}

impl Default for Config {
    fn default() -> (res: Config)
        ensures
            res@ == SettingsView::blank(),
    {
        Config {
            username: String::new(),
            proxy: String::new(),
            auth: None,
            cache_ttl: 0,
            label_whitelist: None,
            port_forwarding_config: None,
        }
    }
}

/// The settings while they are put together.
#[derive(Debug, PartialEq)]
pub struct ConfigBuilder {
    pub username: Option<String>,
    /// The proxy, `None` until one is given: nothing stands in for it.
    pub proxy: Option<String>,
    pub auth: Option<String>,
    pub cache_ttl: Option<u64>,
    pub label_whitelist: Option<Vec<String>>,
    pub port_forwarding_config: Option<PortForwardingConfig>,
}

/// What a `ConfigBuilder` holds, with every text as its sequence of characters.
pub struct BuilderView {
    pub username: Option<Seq<char>>,
    pub proxy: Option<Seq<char>>,
    pub auth: Option<Seq<char>>,
    pub cache_ttl: Option<u64>,
    pub label_whitelist: Option<Seq<Seq<char>>>,
    pub port_forwarding_config: Option<PortForwardingView>,
}

impl View for ConfigBuilder {
    type V = BuilderView;

    open spec fn view(&self) -> BuilderView {
        BuilderView {
            username: self.username.deep_view(),
            proxy: self.proxy.deep_view(),
            auth: self.auth.deep_view(),
            cache_ttl: self.cache_ttl,
            label_whitelist: self.label_whitelist.deep_view(),
            port_forwarding_config: forwarding_view(self.port_forwarding_config),
        }
    }
}

impl BuilderView {
    /// The builder to which nothing was given.
    pub open spec fn blank() -> BuilderView {
        BuilderView {
            username: None,
            proxy: None,
            auth: None,
            cache_ttl: None,
            label_whitelist: None,
            port_forwarding_config: None,
        }
    }

    /// The settings that the builder stands for, which are none without a
    /// proxy: nothing stands in for the proxy. Without a user name the
    /// settings name `os_user`, the user of the operating system; without a
    /// time to live the cache lives for a day.
    pub open spec fn spec_build(self, os_user: Seq<char>) -> Result<SettingsView, BeamError> {
        match self.proxy {
            None => Err(BeamError::MissingProxy),
            Some(proxy) => Ok(
                SettingsView {
                    username: match self.username {
                        Some(name) => name,
                        None => os_user,
                    },
                    proxy,
                    auth: self.auth,
                    cache_ttl: match self.cache_ttl {
                        Some(ttl) => ttl,
                        None => DEFAULT_CACHE_TTL,
                    },
                    label_whitelist: self.label_whitelist,
                    port_forwarding_config: self.port_forwarding_config,
                },
            ),
        }
    }
}

/// The view of settings that may have failed.
pub open spec fn built_view(res: Result<Config, BeamError>) -> Result<SettingsView, BeamError> {
    match res {
        Ok(config) => Ok(config@),
        Err(e) => Err(e),
    }
}

impl Default for ConfigBuilder {
    fn default() -> (res: ConfigBuilder)
        ensures
            res@ == BuilderView::blank(),
    {
        ConfigBuilder {
            username: None,
            proxy: None,
            auth: None,
            cache_ttl: None,
            label_whitelist: None,
            port_forwarding_config: None,
        }
    }
}

/// The name of the user who runs the program, from `whoami::username`.
///
/// Trusted: nothing is claimed of the name, which the operating system gives.
#[verifier::external_body]
pub(crate) fn os_username() -> (res: String) {
    whoami::username()
}

impl ConfigBuilder {
    /// A builder to which nothing was given yet.
    pub fn new() -> (res: ConfigBuilder)
        ensures
            res@ == BuilderView::blank(),
    {
        ConfigBuilder::default()
    }

    /// The builder with the user name `username`.
    pub fn username(self, username: &str) -> (res: ConfigBuilder)
        ensures
            res@ == (BuilderView { username: Some(username@), ..self@ }),
    {
        let mut res = self;
        res.username = Some(String::from_str(username));
        res
    }

    /// The builder with the proxy `proxy`.
    pub fn proxy(self, proxy: &str) -> (res: ConfigBuilder)
        ensures
            res@ == (BuilderView { proxy: Some(proxy@), ..self@ }),
    {
        let mut res = self;
        res.proxy = Some(String::from_str(proxy));
        res
    }

    /// The builder with the authentication method `auth`.
    pub fn auth(self, auth: &str) -> (res: ConfigBuilder)
        ensures
            res@ == (BuilderView { auth: Some(auth@), ..self@ }),
    {
        let mut res = self;
        res.auth = Some(String::from_str(auth));
        res
    }

    /// The builder with a time to live of `cache_ttl` seconds for the cache.
    pub fn cache_ttl(self, cache_ttl: u64) -> (res: ConfigBuilder)
        ensures
            res@ == (BuilderView { cache_ttl: Some(cache_ttl), ..self@ }),
    {
        let mut res = self;
        res.cache_ttl = Some(cache_ttl);
        res
    }

    /// The builder with the labels that are shown.
    pub fn label_whitelist(self, label_whitelist: Vec<String>) -> (res: ConfigBuilder)
        ensures
            res@ == (BuilderView { label_whitelist: Some(label_whitelist.deep_view()), ..self@ }),
    {
        let mut res = self;
        res.label_whitelist = Some(label_whitelist);
        res
    }

    /// The builder with the port forwarding.
    pub fn port_forwarding_config(self, port_forwarding_config: PortForwardingConfig) -> (res:
        ConfigBuilder)
        ensures
            res@ == (BuilderView {
                port_forwarding_config: Some(port_forwarding_config@),
                ..self@
            }),
    {
        let mut res = self;
        res.port_forwarding_config = Some(port_forwarding_config);
        res
    }

    /// The settings that the builder stands for, where `os_user` is the user
    /// of the operating system. A builder that was given no proxy fails.
    pub fn build_for(self, os_user: String) -> (res: Result<Config, BeamError>)
        ensures
            built_view(res) == self@.spec_build(os_user@),
            self@.proxy is None ==> res == Err::<Config, BeamError>(BeamError::MissingProxy),
            self@.proxy is Some ==> res is Ok,
    {
        let proxy = match self.proxy {
            Some(proxy) => proxy,
            None => {
                return Err(BeamError::MissingProxy);
            },
        };
        Ok(
            Config {
                username: match self.username {
                    Some(name) => name,
                    None => os_user,
                },
                proxy,
                auth: self.auth,
                cache_ttl: match self.cache_ttl {
                    Some(ttl) => ttl,
                    None => DEFAULT_CACHE_TTL,
                },
                label_whitelist: self.label_whitelist,
                port_forwarding_config: self.port_forwarding_config,
            },
        )
    }

    /// The settings that the builder stands for. Without a user name they
    /// name the user whom the operating system reports. A builder that was
    /// given no proxy fails.
    pub fn build(self) -> (res: Result<Config, BeamError>)
        ensures
            exists|os_user: Seq<char>| built_view(res) == #[trigger] self@.spec_build(os_user),
            self@.proxy is None ==> res == Err::<Config, BeamError>(BeamError::MissingProxy),
            self@.proxy is Some ==> res is Ok,
    {
        let os_user = os_username();
        let ghost name = os_user@;
        let res = self.build_for(os_user);
        assert(built_view(res) == self@.spec_build(name));
        res
    }
}

/// The layouts in which the profiles were stored over time.
#[derive(Clone, Copy, Debug, PartialEq, Eq, Structural)]
pub enum ConfigVersion {
    /// Below `.beam` in the home directory.
    V1,
    /// Below `.config/beam` in the home directory.
    V2,
    /// The layout that is assumed where none is asked for.
    Default,
    /// No profiles are stored.
    Missing,
}

impl ConfigVersion {
    /// The place of the stored profiles below the home directory.
    pub open spec fn spec_location(self) -> Seq<char> {
        match self {
            ConfigVersion::V2 => "/.config/beam/profiles.toml"@,
            _ => "/.beam/profiles.toml"@,
        }
    }

    /// The path of the stored profiles, given the home directory.
    pub fn get_path(&self, home_dir: &str) -> (res: String)
        ensures
            res@ == home_dir@ + self.spec_location(),
    {
        let mut res = String::from_str(home_dir);
        match self {
            ConfigVersion::V2 => res.append("/.config/beam/profiles.toml"),
            _ => res.append("/.beam/profiles.toml"),
        }
        res
    }
}

impl Config {
    /// A builder to which nothing was given yet.
    pub fn builder() -> (res: ConfigBuilder)
        ensures
            res@ == BuilderView::blank(),
    {
        ConfigBuilder::default()
    }

    /// The layout that is in use: the newer one where its file exists, else
    /// the older one where its file exists.
    pub fn find_current_version(v2_exists: bool, v1_exists: bool) -> (res: ConfigVersion)
        ensures
            res == (if v2_exists {
                ConfigVersion::V2
            } else if v1_exists {
                ConfigVersion::V1
            } else {
                ConfigVersion::Missing
            }),
    {
        if v2_exists {
            ConfigVersion::V2
        } else if v1_exists {
            ConfigVersion::V1
        } else {
            ConfigVersion::Missing
        }
    }
}

} // verus!
