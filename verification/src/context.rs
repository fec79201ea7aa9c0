//! What one invocation knows while it runs.

use vstd::prelude::*;
use vstd::string::*;
use crate::config::Config;
use crate::config::SettingsView;

verus! {

/// The switches of one invocation.
#[derive(Clone, Copy, Debug, PartialEq, Eq, Structural)]
pub struct RuntimeFlags {
    /// Print the command instead of running it.
    pub tsh: bool,
    /// Fetch the directory anew, whatever the cache holds.
    pub clear_cache: bool,
}

/// What one invocation found out.
#[derive(Debug, PartialEq)]
pub struct RuntimeMeta {
    pub profile_name: String,
    pub is_logged_in: bool,
}

/// The settings, switches and findings of one invocation.
#[derive(Debug, PartialEq)]
pub struct RuntimeContext {
    pub flags: RuntimeFlags,
    pub meta: RuntimeMeta,
    pub config: Config,
}

/// A `RuntimeContext` while it is put together.
#[derive(Debug, PartialEq)]
pub struct RuntimeContextBuilder {
    pub flags: RuntimeFlags,
    pub meta: RuntimeMeta,
    pub config: Config,
}

/// What a `RuntimeContext` or its builder holds, with every text as its
/// sequence of characters.
pub struct ContextView {
    pub tsh: bool,
    pub clear_cache: bool,
    pub profile_name: Seq<char>,
    pub is_logged_in: bool,
    pub config: SettingsView,
}

impl ContextView {
    /// The context before anything was given to it.
    pub open spec fn blank() -> ContextView {
        ContextView {
            tsh: false,
            clear_cache: false,
            profile_name: Seq::empty(),
            is_logged_in: false,
            config: SettingsView::blank(),
        }
    }
}

impl View for RuntimeContext {
    type V = ContextView;

    open spec fn view(&self) -> ContextView {
        ContextView {
            tsh: self.flags.tsh,
            clear_cache: self.flags.clear_cache,
            profile_name: self.meta.profile_name@,
            is_logged_in: self.meta.is_logged_in,
            config: self.config@,
        }
    }
}

impl View for RuntimeContextBuilder {
    type V = ContextView;

    open spec fn view(&self) -> ContextView {
        ContextView {
            tsh: self.flags.tsh,
            clear_cache: self.flags.clear_cache,
            profile_name: self.meta.profile_name@,
            is_logged_in: self.meta.is_logged_in,
            config: self.config@,
        }
    }
}

impl Default for RuntimeFlags {
    fn default() -> (res: RuntimeFlags)
        ensures
            res == (RuntimeFlags { tsh: false, clear_cache: false }),
    {
        RuntimeFlags { tsh: false, clear_cache: false }
    }
}

impl Default for RuntimeMeta {
    fn default() -> (res: RuntimeMeta)
        ensures
            res.profile_name@ == Seq::<char>::empty(),
            !res.is_logged_in,
    {
        RuntimeMeta { profile_name: String::new(), is_logged_in: false }
    }
}

impl Default for RuntimeContextBuilder {
    fn default() -> (res: RuntimeContextBuilder)
        ensures
            res@ == ContextView::blank(),
    {
        RuntimeContextBuilder {
            flags: RuntimeFlags::default(),
            meta: RuntimeMeta::default(),
            config: Config::default(),
        }
    }
}

impl RuntimeContext {
    /// A builder to which nothing was given yet.
    pub fn builder() -> (res: RuntimeContextBuilder)
        ensures
            res@ == ContextView::blank(),
    {
        RuntimeContextBuilder::new()
    }
}

impl RuntimeContextBuilder {
    /// A builder to which nothing was given yet.
    pub fn new() -> (res: RuntimeContextBuilder)
        ensures
            res@ == ContextView::blank(),
    {
        RuntimeContextBuilder::default()
    }

    /// The builder with the switch that sets the cache aside.
    pub fn clear_cache(self, clear_cache: bool) -> (res: RuntimeContextBuilder)
        ensures
            res@ == (ContextView { clear_cache, ..self@ }),
    {
        let mut res = self;
        res.flags.clear_cache = clear_cache;
        res
    }

    /// The builder with the switch that only prints the command.
    pub fn tsh(self, tsh: bool) -> (res: RuntimeContextBuilder)
        ensures
            res@ == (ContextView { tsh, ..self@ }),
    {
        let mut res = self;
        res.flags.tsh = tsh;
        res
    }

    /// The builder with the settings `config`.
    pub fn config(self, config: Config) -> (res: RuntimeContextBuilder)
        ensures
            res@ == (ContextView { config: config@, ..self@ }),
    {
        let mut res = self;
        res.config = config;
        res
    }

    /// The builder with the name of the profile that the settings come from.
    pub fn profile_name(self, profile_name: &str) -> (res: RuntimeContextBuilder)
        ensures
            res@ == (ContextView { profile_name: profile_name@, ..self@ }),
    {
        let mut res = self;
        res.meta.profile_name = String::from_str(profile_name);
        res
    }

    /// The context that the builder stands for.
    pub fn build(self) -> (res: RuntimeContext)
        ensures
            res@ == self@,
    {
        RuntimeContext { meta: self.meta, flags: self.flags, config: self.config }
    }
}

} // verus!
