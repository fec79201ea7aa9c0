//! Setting and clearing single preferences.

use vstd::prelude::*;
use crate::utils::config::Config;
use crate::utils::config::ConfigView;

verus! {

/// The preferences that are to be set.
#[derive(Debug, PartialEq, Eq)]
pub struct SetOpts {
    pub username: Option<String>,
    pub proxy: Option<String>,
    pub auth: Option<String>,
    pub cache_ttl: Option<u64>,
    pub label_whitelist: Option<Vec<String>>,
}

impl SetOpts {
    /// What is to be set, as preferences.
    pub open spec fn spec_changes(self) -> ConfigView {
        ConfigView {
            username: self.username.deep_view(),
            proxy: self.proxy.deep_view(),
            auth: self.auth.deep_view(),
            cache_ttl: self.cache_ttl,
            label_whitelist: self.label_whitelist.deep_view(),
            ..ConfigView::empty()
        }
    }

    /// The preferences `config` with those that are to be set in the place
    /// of what it held.
    pub fn run(&self, config: Config) -> (res: Config)
        ensures
            res@ == self.spec_changes().merge(config@),
    {
        let changes = Config {
            username: self.username.clone(),
            proxy: self.proxy.clone(),
            auth: self.auth.clone(),
            cache_ttl: self.cache_ttl,
            label_whitelist: self.label_whitelist.clone(),
            enable_port_forwarding: None,
            listen_port: None,
            remote_port: None,
            remote_host: None,
        };
        changes.merge(&config)
    }
}

/// The preferences that are to be cleared.
#[derive(Clone, Copy, Debug, PartialEq, Eq, Structural)]
pub struct Unset {
    pub username: bool,
    pub proxy: bool,
    pub auth: bool,
    pub cache_ttl: bool,
    pub label_whitelist: bool,
}

/// The value, unless it is to be cleared.
pub open spec fn unless<T>(cleared: bool, value: Option<T>) -> Option<T> {
    if cleared {
        None
    } else {
        value
    }
}

impl Unset {
    /// The preferences `config` without those that are to be cleared.
    pub open spec fn spec_run(self, config: ConfigView) -> ConfigView {
        ConfigView {
            username: unless(self.username, config.username),
            proxy: unless(self.proxy, config.proxy),
            auth: unless(self.auth, config.auth),
            cache_ttl: unless(self.cache_ttl, config.cache_ttl),
            label_whitelist: unless(self.label_whitelist, config.label_whitelist),
            ..config
        }
    }

    /// The preferences `config` without those that are to be cleared.
    pub fn run(&self, config: Config) -> (res: Config)
        ensures
            res@ == self.spec_run(config@),
    {
        let mut res = config;
        if self.username {
            res.username = None;
        }
        if self.cache_ttl {
            res.cache_ttl = None;
        }
        if self.proxy {
            res.proxy = None;
        }
        if self.auth {
            res.auth = None;
        }
        if self.label_whitelist {
            res.label_whitelist = None;
        }
        res
    }
}

} // verus!
