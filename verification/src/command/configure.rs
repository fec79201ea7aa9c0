//! Configuring a profile: what the questions offer and what the answers do.

use vstd::prelude::*;
use vstd::string::*;
use crate::config::DEFAULT_CACHE_TTL;
use crate::error::BeamError;
use crate::text::decimal;
use crate::text::lemma_parse_decimal;
use crate::text::number_text;
use crate::text::parse_number;
use crate::text::spec_parse_number;
use crate::text::text_eq;
use crate::utils::config::Config;
use crate::utils::config::ConfigView;
use crate::utils::profile::Profile;
use crate::utils::profile::ProfileView;

verus! {

/// The request to configure a profile.
#[derive(Clone, Copy, Debug, PartialEq, Eq, Structural)]
pub struct Configure {}

/// Which profile is configured.
#[derive(Clone, Copy, Debug, PartialEq, Eq, Structural)]
pub enum ProfileChoice {
    /// A new one, which becomes the default: the store is empty.
    Create,
    /// The only one of the store.
    Only,
    /// The one that the user chooses from the names.
    Ask,
}

/// What the questions offer as answers.
#[derive(Debug, PartialEq, Eq)]
pub struct WizardDefaults {
    pub proxy: String,
    /// Whether the proxy is offered: it is where one is configured.
    pub show_proxy: bool,
    pub username: String,
    pub auth: String,
    pub cache_ttl: String,
}

/// What the user does to the labels that are shown.
#[derive(Debug, PartialEq, Eq)]
pub enum LabelEdit {
    /// Nothing.
    Keep,
    /// These labels are shown too.
    Add(Vec<String>),
    /// Of the labels only those at these places stay.
    Retain(Vec<usize>),
}

/// What the user answered.
#[derive(Debug, PartialEq, Eq)]
pub struct WizardAnswers {
    pub proxy: String,
    pub username: String,
    pub auth: String,
    pub cache_ttl: String,
    pub labels: LabelEdit,
}

/// What a `LabelEdit` holds, the labels as sequences of characters.
pub enum EditView {
    Keep,
    Add(Seq<Seq<char>>),
    Retain(Seq<usize>),
}

impl View for LabelEdit {
    type V = EditView;

    open spec fn view(&self) -> EditView {
        match self {
            LabelEdit::Keep => EditView::Keep,
            LabelEdit::Add(labels) => EditView::Add(labels.deep_view()),
            LabelEdit::Retain(places) => EditView::Retain(places@),
        }
    }
}

/// The answer that stands for the authentication method of the proxy's choice.
pub open spec fn default_auth() -> Seq<char> {
    "default"@
}

/// Whether `places` holds the place `i`.
pub open spec fn holds_place(places: Seq<usize>, i: int) -> bool {
    exists|k: int| 0 <= k < places.len() && #[trigger] places[k] == i
}

/// The labels of `list` that stand at one of `places`, in their order.
pub open spec fn retained(list: Seq<Seq<char>>, places: Seq<usize>) -> Seq<Seq<char>>
    decreases list.len(),
{
    if list.len() == 0 {
        Seq::empty()
    } else if holds_place(places, list.len() - 1) {
        retained(list.drop_last(), places).push(list.last())
    } else {
        retained(list.drop_last(), places)
    }
}

/// The labels, or `None` where there are none: without labels to show, all
/// are shown.
pub open spec fn unless_empty(list: Seq<Seq<char>>) -> Option<Seq<Seq<char>>> {
    if list.len() == 0 {
        None
    } else {
        Some(list)
    }
}

/// The labels that are shown after the edit.
pub open spec fn spec_edit(shown: Option<Seq<Seq<char>>>, edit: EditView) -> Option<
    Seq<Seq<char>>,
> {
    match edit {
        EditView::Keep => shown,
        EditView::Add(labels) => match shown {
            Some(list) => unless_empty(list + labels),
            None => Some(labels),
        },
        EditView::Retain(places) => match shown {
            Some(list) => unless_empty(retained(list, places)),
            None => None,
        },
    }
}

/// The preferences after the answers: the proxy and the user as answered;
/// the authentication method unless the answer is `default`; the time to
/// live as the number that was answered, which it has to be.
pub open spec fn spec_wizard(
    config: ConfigView,
    proxy: Seq<char>,
    username: Seq<char>,
    auth: Seq<char>,
    cache_ttl: Seq<char>,
    labels: EditView,
) -> Result<ConfigView, BeamError> {
    match spec_parse_number(cache_ttl) {
        None => Err(BeamError::InvalidCacheTtl),
        Some(ttl) => Ok(
            ConfigView {
                proxy: Some(proxy),
                username: Some(username),
                auth: if auth == default_auth() {
                    None
                } else {
                    Some(auth)
                },
                cache_ttl: Some(ttl),
                label_whitelist: spec_edit(config.label_whitelist, labels),
                ..config
            },
        ),
    }
}

/// Whether `places` holds the place `i`.
fn has_place(places: &Vec<usize>, i: usize) -> (res: bool)
    ensures
        res == holds_place(places@, i as int),
{
    let mut k: usize = 0;
    while k < places.len()
        invariant
            k <= places.len(),
            forall|j: int| 0 <= j < k ==> places@[j] != i,
        decreases places.len() - k,
    {
        if places[k] == i {
            return true;
        }
        k = k + 1;
    }
    false
}

/// The labels that are shown after the edit.
pub fn edit_labels(shown: &Option<Vec<String>>, edit: &LabelEdit) -> (res: Option<Vec<String>>)
    ensures
        res.deep_view() == spec_edit(shown.deep_view(), edit@),
{
    match edit {
        LabelEdit::Keep => shown.clone(),
        LabelEdit::Add(labels) => match shown {
            None => Some(labels.clone()),
            Some(list) => {
                let mut all = list.clone();
                let mut i: usize = 0;
                while i < labels.len()
                    invariant
                        i <= labels.len(),
                        all.deep_view() == list.deep_view() + labels.deep_view().take(i as int),
                    decreases labels.len() - i,
                {
                    let ghost before = all.deep_view();
                    all.push(labels[i].clone());
                    assert(all.deep_view() =~= before.push(labels[i as int]@));
                    assert(labels.deep_view().take(i + 1) =~= labels.deep_view().take(
                        i as int,
                    ).push(labels[i as int]@));
                    i = i + 1;
                }
                assert(labels.deep_view().take(i as int) =~= labels.deep_view());
                if all.len() == 0 {
                    None
                } else {
                    Some(all)
                }
            },
        },
        LabelEdit::Retain(places) => match shown {
            None => None,
            Some(list) => {
                let ghost given = list.deep_view();
                let mut kept: Vec<String> = Vec::new();
                let mut i: usize = 0;
                assert(kept.deep_view() =~= retained(given.take(0), places@));
                while i < list.len()
                    invariant
                        i <= list.len(),
                        given == list.deep_view(),
                        kept.deep_view() == retained(given.take(i as int), places@),
                    decreases list.len() - i,
                {
                    proof {
                        assert(given.take(i + 1).drop_last() =~= given.take(i as int));
                        assert(given.take(i + 1).last() == list[i as int]@);
                    }
                    if has_place(places, i) {
                        let ghost before = kept.deep_view();
                        kept.push(list[i].clone());
                        assert(kept.deep_view() =~= before.push(list[i as int]@));
                    }
                    i = i + 1;
                }
                assert(given.take(i as int) =~= given);
                if kept.len() == 0 {
                    None
                } else {
                    Some(kept)
                }
            },
        },
    }
}

impl Configure {
    /// Which profile is configured, given the profiles of the store.
    pub fn run(&self, profiles: &[Profile]) -> (res: ProfileChoice)
        ensures
            res == (if profiles.len() == 0 {
                ProfileChoice::Create
            } else if profiles.len() == 1 {
                ProfileChoice::Only
            } else {
                ProfileChoice::Ask
            }),
    {
        if profiles.len() == 0 {
            ProfileChoice::Create
        } else if profiles.len() == 1 {
            ProfileChoice::Only
        } else {
            ProfileChoice::Ask
        }
    }

    /// The profile that is created under the name that the user entered. It
    /// is the default where it has to be or where the user wants it to be.
    pub fn new_profile(name: String, force_default: bool, wants_default: bool) -> (res: Profile)
        ensures
            res@ == (ProfileView {
                name: name@,
                default: force_default || wants_default,
                host_pattern: None,
                priority: None,
                config: ConfigView::empty(),
            }),
    {
        Profile::new(name, force_default || wants_default, None, None)
    }

    /// What the questions offer, given the preferences so far and the user
    /// of the operating system: for each question what is configured, else
    /// no proxy, that user, the method `default`, and a day. The time to
    /// live that is offered is read back as the number that it stands for.
    pub fn defaults(config: &Config, os_user: String) -> (res: WizardDefaults)
        ensures
            res.proxy@ == (match config@.proxy {
                Some(proxy) => proxy,
                None => Seq::<char>::empty(),
            }),
            res.show_proxy == (res.proxy@.len() > 0),
            res.username@ == (match config@.username {
                Some(name) => name,
                None => os_user@,
            }),
            res.auth@ == (match config@.auth {
                Some(method) => method,
                None => default_auth(),
            }),
            res.cache_ttl@ == decimal(
                (match config@.cache_ttl {
                    Some(ttl) => ttl,
                    None => DEFAULT_CACHE_TTL,
                }) as nat,
            ),
            spec_parse_number(res.cache_ttl@) == Some(
                match config@.cache_ttl {
                    Some(ttl) => ttl,
                    None => DEFAULT_CACHE_TTL,
                },
            ),
    {
        proof {
            lemma_parse_decimal(
                match config@.cache_ttl {
                    Some(ttl) => ttl,
                    None => DEFAULT_CACHE_TTL,
                },
            );
        }
        let proxy = match &config.proxy {
            Some(proxy) => proxy.clone(),
            None => String::new(),
        };
        let show_proxy = proxy.as_str().unicode_len() > 0;
        let username = match &config.username {
            Some(name) => name.clone(),
            None => os_user,
        };
        let auth = match &config.auth {
            Some(method) => method.clone(),
            None => String::from_str("default"),
        };
        let cache_ttl = match config.cache_ttl {
            Some(ttl) => number_text(ttl),
            None => number_text(DEFAULT_CACHE_TTL),
        };
        WizardDefaults { proxy, show_proxy, username, auth, cache_ttl }
    }

    /// Puts the answers into the preferences. Where the time to live is no
    /// number the preferences stay as they were.
    pub fn wizard(config: &mut Config, answers: WizardAnswers) -> (res: Result<(), BeamError>)
        ensures
            match res {
                Ok(()) => spec_wizard(
                    old(config)@,
                    answers.proxy@,
                    answers.username@,
                    answers.auth@,
                    answers.cache_ttl@,
                    answers.labels@,
                ) == Ok::<ConfigView, BeamError>(final(config)@),
                Err(e) => final(config)@ == old(config)@ && spec_wizard(
                    old(config)@,
                    answers.proxy@,
                    answers.username@,
                    answers.auth@,
                    answers.cache_ttl@,
                    answers.labels@,
                ) == Err::<ConfigView, BeamError>(e),
            },
    {
        let ttl = match parse_number(answers.cache_ttl.as_str()) {
            Some(ttl) => ttl,
            None => {
                return Err(BeamError::InvalidCacheTtl);
            },
        };
        let labels = edit_labels(&config.label_whitelist, &answers.labels);
        let keeps_auth = !text_eq(answers.auth.as_str(), "default");
        config.label_whitelist = labels;
        config.proxy = Some(answers.proxy);
        config.username = Some(answers.username);
        config.auth = if keeps_auth {
            Some(answers.auth)
        } else {
            None
        };
        config.cache_ttl = Some(ttl);
        Ok(())
    }
}

} // verus!
