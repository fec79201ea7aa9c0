//! The connection preferences that a profile stores.

use vstd::prelude::*;

verus! {

/// A bag of connection preferences. A field that is `None` is inherited from
/// whatever is consulted next.
#[derive(Debug, PartialEq, Eq)]
pub struct Config {
    pub username: Option<String>,
    pub proxy: Option<String>,
    pub auth: Option<String>,
    pub cache_ttl: Option<u64>,
    pub label_whitelist: Option<Vec<String>>,
    pub enable_port_forwarding: Option<bool>,
    pub listen_port: Option<u16>,
    pub remote_port: Option<u16>,
    pub remote_host: Option<String>,
}

/// What a `Config` holds, with every text as its sequence of characters.
pub struct ConfigView {
    pub username: Option<Seq<char>>,
    pub proxy: Option<Seq<char>>,
    pub auth: Option<Seq<char>>,
    pub cache_ttl: Option<u64>,
    pub label_whitelist: Option<Seq<Seq<char>>>,
    pub enable_port_forwarding: Option<bool>,
    pub listen_port: Option<u16>,
    pub remote_port: Option<u16>,
    pub remote_host: Option<Seq<char>>,
}

impl ConfigView {
    /// The view of a `Config` with no field set.
    pub open spec fn empty() -> ConfigView {
        ConfigView {
            username: None,
            proxy: None,
            auth: None,
            cache_ttl: None,
            label_whitelist: None,
            enable_port_forwarding: None,
            listen_port: None,
            remote_port: None,
            remote_host: None,
        }
    }
}

/// The first of two values that is set.
pub open spec fn or_else<T>(first: Option<T>, next: Option<T>) -> Option<T> {
    match first {
        Some(_) => first,
        None => next,
    }
}

impl ConfigView {
    /// These preferences, and for each that is not set the one of `next`.
    pub open spec fn merge(self, next: ConfigView) -> ConfigView {
        ConfigView {
            username: or_else(self.username, next.username),
            proxy: or_else(self.proxy, next.proxy),
            auth: or_else(self.auth, next.auth),
            cache_ttl: or_else(self.cache_ttl, next.cache_ttl),
            label_whitelist: or_else(self.label_whitelist, next.label_whitelist),
            enable_port_forwarding: or_else(
                self.enable_port_forwarding,
                next.enable_port_forwarding,
            ),
            listen_port: or_else(self.listen_port, next.listen_port),
            remote_port: or_else(self.remote_port, next.remote_port),
            remote_host: or_else(self.remote_host, next.remote_host),
        }
    }
}

/// Preferences that are not set change nothing, and it does not matter
/// which two of three layers are merged first.
pub proof fn lemma_merge_layers(a: ConfigView, b: ConfigView, c: ConfigView)
    ensures
        ConfigView::empty().merge(a) == a,
        a.merge(ConfigView::empty()) == a,
        a.merge(b).merge(c) == a.merge(b.merge(c)),
{
}

/// A preference that an earlier layer sets is never taken from a later one.
pub proof fn lemma_merge_prefers_first(a: ConfigView, b: ConfigView)
    ensures
        a.username is Some ==> a.merge(b).username == a.username,
        a.proxy is Some ==> a.merge(b).proxy == a.proxy,
        a.auth is Some ==> a.merge(b).auth == a.auth,
        a.cache_ttl is Some ==> a.merge(b).cache_ttl == a.cache_ttl,
        a.label_whitelist is Some ==> a.merge(b).label_whitelist == a.label_whitelist,
        a.username is None ==> a.merge(b).username == b.username,
        a.proxy is None ==> a.merge(b).proxy == b.proxy,
        a.auth is None ==> a.merge(b).auth == b.auth,
        a.cache_ttl is None ==> a.merge(b).cache_ttl == b.cache_ttl,
        a.label_whitelist is None ==> a.merge(b).label_whitelist == b.label_whitelist,
{
}

/// The first of two texts that is set.
fn text_or(first: &Option<String>, next: &Option<String>) -> (res: Option<String>)
    ensures
        res.deep_view() == or_else(first.deep_view(), next.deep_view()),
{
    match first {
        Some(text) => Some(text.clone()),
        None => next.clone(),
    }
}

/// The first of two values that is set.
fn value_or<T: Copy>(first: Option<T>, next: Option<T>) -> (res: Option<T>)
    ensures
        res == or_else(first, next),
{
    match first {
        Some(_) => first,
        None => next,
    }
}

impl Config {
    /// These preferences, and for each that is not set the one of `next`.
    pub fn merge(&self, next: &Config) -> (res: Config)
        ensures
            res@ == self@.merge(next@),
    {
        Config {
            username: text_or(&self.username, &next.username),
            proxy: text_or(&self.proxy, &next.proxy),
            auth: text_or(&self.auth, &next.auth),
            cache_ttl: value_or(self.cache_ttl, next.cache_ttl),
            label_whitelist: match &self.label_whitelist {
                Some(labels) => Some(labels.clone()),
                None => next.label_whitelist.clone(),
            },
            enable_port_forwarding: value_or(
                self.enable_port_forwarding,
                next.enable_port_forwarding,
            ),
            listen_port: value_or(self.listen_port, next.listen_port),
            remote_port: value_or(self.remote_port, next.remote_port),
            remote_host: text_or(&self.remote_host, &next.remote_host),
        }
    }
}

impl View for Config {
    type V = ConfigView;

    open spec fn view(&self) -> ConfigView {
        ConfigView {
            username: self.username.deep_view(),
            proxy: self.proxy.deep_view(),
            auth: self.auth.deep_view(),
            cache_ttl: self.cache_ttl,
            label_whitelist: self.label_whitelist.deep_view(),
            enable_port_forwarding: self.enable_port_forwarding,
            listen_port: self.listen_port,
            remote_port: self.remote_port,
            remote_host: self.remote_host.deep_view(),
        }
    }
}

impl Clone for Config {
    fn clone(&self) -> (res: Config)
        ensures
            res@ == self@,
    {
        Config {
            username: self.username.clone(),
            proxy: self.proxy.clone(),
            auth: self.auth.clone(),
            cache_ttl: self.cache_ttl,
            label_whitelist: self.label_whitelist.clone(),
            enable_port_forwarding: self.enable_port_forwarding,
            listen_port: self.listen_port,
            remote_port: self.remote_port,
            remote_host: self.remote_host.clone(),
        }
    }
}

impl Default for Config {
    fn default() -> (res: Config)
        ensures
            res@ == ConfigView::empty(),
    {
        Config {
            username: None,
            proxy: None,
            auth: None,
            cache_ttl: None,
            label_whitelist: None,
            enable_port_forwarding: None,
            listen_port: None,
            remote_port: None,
            remote_host: None,
        }
    }
}

} // verus!
