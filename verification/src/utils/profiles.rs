//! The store of profiles, and the choice of the profile for a host.

use vstd::prelude::*;
use vstd::string::*;
use crate::error::BeamError;
use crate::error::Failure;
use crate::error::FailureView;
use crate::keyed;
use crate::keyed::keys_of;
use crate::keyed::Keyed;
use crate::pattern::match_pattern;
use crate::pattern::pattern_compiles;
use crate::pattern::pattern_found_in;
use crate::pattern::PatternMatch;
use crate::text::lemma_lex_irreflexive;
use crate::text::lex_lt;
use crate::text::text_eq;
use crate::utils::profile::Profile;
use crate::utils::profile::ProfileView;

verus! {

/// The views of a sequence of profiles.
pub open spec fn views(s: Seq<Profile>) -> Seq<ProfileView> {
    Seq::new(s.len(), |i: int| s[i]@)
}

/// How many of the profiles are marked as the default.
pub open spec fn count_defaults(s: Seq<ProfileView>) -> nat
    decreases s.len(),
{
    if s.len() == 0 {
        0
    } else {
        count_defaults(s.drop_last()) + if s.last().default {
            1nat
        } else {
            0nat
        }
    }
}

/// The position of the first profile that is marked as the default, or the
/// length of the sequence where none is.
pub open spec fn first_default(s: Seq<ProfileView>) -> int
    decreases s.len(),
{
    if s.len() == 0 {
        0
    } else if s[0].default {
        0
    } else {
        1 + first_default(s.drop_first())
    }
}

/// The position of the first profile that is called `name`, or the length
/// of the sequence where none is.
pub open spec fn first_named(s: Seq<ProfileView>, name: Seq<char>) -> int
    decreases s.len(),
{
    if s.len() == 0 {
        0
    } else if s[0].name == name {
        0
    } else {
        1 + first_named(s.drop_first(), name)
    }
}

/// `first_named` is the position before which no profile has the name and
/// at which one has it, or the sequence ends.
pub proof fn lemma_first_named(s: Seq<ProfileView>, name: Seq<char>, i: int)
    requires
        0 <= i <= s.len(),
        i < s.len() ==> s[i].name == name,
        forall|j: int| 0 <= j < i ==> (#[trigger] s[j]).name != name,
    ensures
        first_named(s, name) == i,
    decreases i,
{
    if i > 0 {
        let t = s.drop_first();
        if i < s.len() {
            assert(t[i - 1] == s[i]);
        }
        assert(s[0].name != name);
        assert forall|j: int| 0 <= j < i - 1 implies (#[trigger] t[j]).name != name by {
            assert(t[j] == s[j + 1]);
        }
        lemma_first_named(t, name, i - 1);
    }
}

/// The default profile of a set of profiles that holds exactly one, and the
/// failure that it deserves otherwise.
pub open spec fn spec_verify(s: Seq<ProfileView>) -> Result<ProfileView, BeamError> {
    if s.len() == 0 {
        Err(BeamError::NoProfiles)
    } else if count_defaults(s) == 0 {
        Err(BeamError::NoDefaultProfile)
    } else if count_defaults(s) == 1 {
        Ok(s[first_default(s)])
    } else {
        Err(BeamError::MultipleDefaultProfiles)
    }
}

/// The name under which a profile is listed: the default profile is marked.
pub open spec fn display_name(p: ProfileView) -> Seq<char> {
    if p.default {
        p.name + " (default)"@
    } else {
        p.name
    }
}

/// `first_default` is the position before which no profile is the default
/// and at which one is.
pub proof fn lemma_first_default(s: Seq<ProfileView>, i: int)
    requires
        0 <= i < s.len(),
        s[i].default,
        forall|j: int| 0 <= j < i ==> !s[j].default,
    ensures
        first_default(s) == i,
    decreases i,
{
    if i > 0 {
        let t = s.drop_first();
        assert(t[i - 1] == s[i]);
        assert forall|j: int| 0 <= j < i - 1 implies !t[j].default by {
            assert(t[j] == s[j + 1]);
        }
        lemma_first_default(t, i - 1);
    }
}

/// The view of a profile that may be absent.
pub open spec fn view_some(o: Option<Profile>) -> Option<ProfileView> {
    match o {
        Some(p) => Some(p@),
        None => None,
    }
}

/// Whether the profile's host pattern, if it has one, is a regular expression.
pub open spec fn pattern_is_valid(p: ProfileView) -> bool {
    p.host_pattern matches Some(pattern) ==> pattern_compiles(pattern)
}

/// Whether the profile has a host pattern that occurs somewhere in `host`.
pub open spec fn applies_to(p: ProfileView, host: Seq<char>) -> bool {
    p.host_pattern matches Some(pattern) && pattern_found_in(pattern, host)
}

/// The profiles that apply to `host`, in the order in which they stand in `s`.
pub open spec fn matching(s: Seq<ProfileView>, host: Seq<char>) -> Seq<ProfileView>
    decreases s.len(),
{
    if s.len() == 0 {
        Seq::empty()
    } else if applies_to(s.last(), host) {
        matching(s.drop_last(), host).push(s.last())
    } else {
        matching(s.drop_last(), host)
    }
}

/// Of the profiles that have a priority, the one with the lowest number;
/// where several have it, the one that stands first.
pub open spec fn best_priority(m: Seq<ProfileView>) -> Option<ProfileView>
    decreases m.len(),
{
    if m.len() == 0 {
        None
    } else {
        let earlier = best_priority(m.drop_last());
        match (earlier, m.last().priority) {
            (None, None) => None,
            (None, Some(_)) => Some(m.last()),
            (Some(best), None) => Some(best),
            (Some(best), Some(priority)) => if priority < best.priority->0 {
                Some(m.last())
            } else {
                Some(best)
            },
        }
    }
}

/// The profile that is chosen among those that apply to a host: none of
/// none, the only one of one, and of several the one of best priority.
pub open spec fn spec_select(m: Seq<ProfileView>) -> Option<ProfileView> {
    if m.len() == 0 {
        None
    } else if m.len() == 1 {
        Some(m[0])
    } else {
        best_priority(m)
    }
}

/// The profile for `host` among `s`. A host pattern that is no regular
/// expression is an error, wherever it stands.
pub open spec fn spec_get_matching(host: Seq<char>, s: Seq<ProfileView>) -> Result<
    Option<ProfileView>,
    BeamError,
> {
    if forall|i: int| 0 <= i < s.len() ==> pattern_is_valid(#[trigger] s[i]) {
        Ok(spec_select(matching(s, host)))
    } else {
        Err(BeamError::InvalidPattern)
    }
}

/// Whether `outcome` is what resolving `host` among `s` gives.
pub open spec fn resolves_to(
    host: Seq<char>,
    s: Seq<ProfileView>,
    outcome: Result<Option<ProfileView>, BeamError>,
) -> bool {
    outcome == spec_get_matching(host, s)
}

/// Resolving is a function of the host and the profiles: two outcomes for
/// the same host and profiles are the same outcome.
pub proof fn lemma_resolve_deterministic(
    host: Seq<char>,
    s: Seq<ProfileView>,
    first: Result<Option<ProfileView>, BeamError>,
    second: Result<Option<ProfileView>, BeamError>,
)
    requires
        resolves_to(host, s, first),
        resolves_to(host, s, second),
    ensures
        first == second,
{
}

/// What `best_priority` chooses has a priority that no other profile
/// undercuts and that no earlier profile equals; it chooses nothing exactly
/// where no profile has a priority.
pub proof fn lemma_best_priority(m: Seq<ProfileView>)
    ensures
        best_priority(m) is None <==> forall|i: int|
            0 <= i < m.len() ==> (#[trigger] m[i]).priority is None,
        best_priority(m) matches Some(best) ==> best.priority is Some && exists|k: int|
            0 <= k < m.len() && #[trigger] m[k] == best && (forall|i: int|
                0 <= i < m.len() && (#[trigger] m[i]).priority is Some ==> best.priority->0
                    <= m[i].priority->0) && (forall|i: int|
                0 <= i < k && (#[trigger] m[i]).priority is Some ==> best.priority->0
                    < m[i].priority->0),
    decreases m.len(),
{
    if m.len() > 0 {
        let front = m.drop_last();
        lemma_best_priority(front);
        assert forall|i: int| 0 <= i < front.len() implies front[i] == m[i] by {}
        match (best_priority(front), m.last().priority) {
            (None, None) => {},
            (None, Some(_)) => {
                let k = m.len() - 1;
                assert(m[k] == m.last());
            },
            (Some(best), None) => {
                let k = choose|k: int|
                    0 <= k < front.len() && #[trigger] front[k] == best && (forall|i: int|
                        0 <= i < front.len() && (#[trigger] front[i]).priority is Some
                            ==> best.priority->0 <= front[i].priority->0) && (forall|i: int|
                        0 <= i < k && (#[trigger] front[i]).priority is Some ==> best.priority->0
                            < front[i].priority->0);
                assert(m[k] == best);
            },
            (Some(best), Some(priority)) => {
                if priority < best.priority->0 {
                    let k = m.len() - 1;
                    assert(m[k] == m.last());
                } else {
                    let k = choose|k: int|
                        0 <= k < front.len() && #[trigger] front[k] == best && (forall|i: int|
                            0 <= i < front.len() && (#[trigger] front[i]).priority is Some
                                ==> best.priority->0 <= front[i].priority->0) && (forall|i: int|
                            0 <= i < k && (#[trigger] front[i]).priority is Some
                                ==> best.priority->0 < front[i].priority->0);
                    assert(m[k] == best);
                }
            },
        }
    }
}

/// Whether the profiles stand in the strict order of their names, so that
/// no name occurs twice.
pub open spec fn sorted_by_name(s: Seq<ProfileView>) -> bool {
    forall|i: int, j: int| 0 <= i < j < s.len() ==> lex_lt(#[trigger] s[i].name, #[trigger] s[j].name)
}

/// The names of the profiles.
pub open spec fn names(s: Seq<ProfileView>) -> Seq<Seq<char>> {
    Seq::new(s.len(), |i: int| s[i].name)
}

/// How many profiles stand at the front of `s` with a name before `name`.
pub open spec fn rank(s: Seq<ProfileView>, name: Seq<char>) -> int {
    keyed::rank(names(s), name)
}

/// Where the profile called `name` stands in a store, if it holds one.
pub open spec fn index_of(s: Seq<ProfileView>, name: Seq<char>) -> Option<int> {
    let k = rank(s, name);
    if k < s.len() && s[k].name == name {
        Some(k)
    } else {
        None
    }
}

/// The store `s` with `p` in the place of the profile of its name, or, where
/// the store has none of that name, added where the order of names puts it.
pub open spec fn spec_upsert(s: Seq<ProfileView>, p: ProfileView) -> Seq<ProfileView> {
    let k = rank(s, p.name);
    if k < s.len() && s[k].name == p.name {
        s.update(k, p)
    } else {
        s.insert(k, p)
    }
}

/// The profiles of `s`, none of them marked as the default.
pub open spec fn clear_defaults(s: Seq<ProfileView>) -> Seq<ProfileView> {
    Seq::new(s.len(), |i: int| ProfileView { default: false, ..s[i] })
}

/// The store after `p` was written to it: a default profile takes the mark
/// from every profile that the store held.
pub open spec fn spec_write(s: Seq<ProfileView>, p: ProfileView) -> Seq<ProfileView> {
    if p.default {
        spec_upsert(clear_defaults(s), p)
    } else {
        spec_upsert(s, p)
    }
}

/// The store that holds the profiles of `v`, of those with one name the last.
pub open spec fn spec_collect(v: Seq<ProfileView>) -> Seq<ProfileView>
    decreases v.len(),
{
    if v.len() == 0 {
        Seq::empty()
    } else {
        spec_upsert(spec_collect(v.drop_last()), v.last())
    }
}

/// The store after the profile called `name` was removed from it. Removing
/// the default profile takes the name of the profile that becomes the
/// default in its place; removing another profile ignores `replacement`.
/// A failure names the profile that it concerns: the one that is not
/// found, or the one that cannot be removed.
pub open spec fn spec_remove(
    s: Seq<ProfileView>,
    name: Seq<char>,
    replacement: Option<Seq<char>>,
) -> Result<Seq<ProfileView>, FailureView> {
    match index_of(s, name) {
        None => Err(FailureView { error: BeamError::ProfileNotFound, subject: name }),
        Some(i) => if s.len() == 1 {
            Err(FailureView { error: BeamError::LastProfile, subject: name })
        } else if !s[i].default {
            Ok(s.remove(i))
        } else {
            match replacement {
                None => Err(FailureView { error: BeamError::ReplacementRequired, subject: name }),
                Some(other) => if other == name {
                    Err(FailureView { error: BeamError::ReplacementRequired, subject: name })
                } else {
                    match index_of(s, other) {
                        None => Err(
                            FailureView { error: BeamError::ProfileNotFound, subject: other },
                        ),
                        Some(j) => Ok(
                            s.update(j, ProfileView { default: true, ..s[j] }).remove(i),
                        ),
                    }
                },
            }
        },
    }
}

/// The profiles of a store have their names in strict order.
pub proof fn lemma_names_ascending(s: Seq<ProfileView>)
    ensures
        sorted_by_name(s) <==> keyed::ascending(names(s)),
{
    if sorted_by_name(s) {
        assert forall|i: int, j: int| 0 <= i < j < names(s).len() implies lex_lt(
            #[trigger] names(s)[i],
            #[trigger] names(s)[j],
        ) by {
            assert(lex_lt(s[i].name, s[j].name));
        }
    }
    if keyed::ascending(names(s)) {
        assert forall|i: int, j: int| 0 <= i < j < s.len() implies lex_lt(
            #[trigger] s[i].name,
            #[trigger] s[j].name,
        ) by {
            assert(lex_lt(names(s)[i], names(s)[j]));
        }
    }
}

/// `rank` is the position before which every name is before `name` and at
/// which the name is not.
pub proof fn lemma_rank(s: Seq<ProfileView>, name: Seq<char>, k: int)
    requires
        0 <= k <= s.len(),
        forall|j: int| 0 <= j < k ==> lex_lt(#[trigger] s[j].name, name),
        k < s.len() ==> !lex_lt(s[k].name, name),
    ensures
        rank(s, name) == k,
{
    assert forall|j: int| 0 <= j < k implies lex_lt(#[trigger] names(s)[j], name) by {
        assert(lex_lt(s[j].name, name));
    }
    keyed::lemma_rank(names(s), name, k);
}

/// What `rank` says of a store: the names before the position are before
/// `name`, and the names from the position on are not.
pub proof fn lemma_rank_splits(s: Seq<ProfileView>, name: Seq<char>)
    requires
        sorted_by_name(s),
    ensures
        0 <= rank(s, name) <= s.len(),
        forall|j: int| 0 <= j < rank(s, name) ==> lex_lt(#[trigger] s[j].name, name),
        forall|j: int| rank(s, name) <= j < s.len() ==> !lex_lt(#[trigger] s[j].name, name),
{
    lemma_names_ascending(s);
    keyed::lemma_rank_splits(names(s), name);
    assert forall|j: int| 0 <= j < rank(s, name) implies lex_lt(#[trigger] s[j].name, name) by {
        assert(lex_lt(names(s)[j], name));
    }
    assert forall|j: int| rank(s, name) <= j < s.len() implies !lex_lt(
        #[trigger] s[j].name,
        name,
    ) by {
        assert(!lex_lt(names(s)[j], name));
    }
}

/// In a store a name is found exactly where a profile has it.
pub proof fn lemma_index_of(s: Seq<ProfileView>, name: Seq<char>)
    requires
        sorted_by_name(s),
    ensures
        index_of(s, name) matches Some(k) ==> 0 <= k < s.len() && s[k].name == name,
        index_of(s, name) is None ==> forall|i: int|
            0 <= i < s.len() ==> (#[trigger] s[i]).name != name,
{
    lemma_rank_splits(s, name);
    let k = rank(s, name);
    if index_of(s, name) is None {
        assert forall|i: int| 0 <= i < s.len() implies (#[trigger] s[i]).name != name by {
            if s[i].name == name {
                lemma_lex_irreflexive(name);
                assert(i >= k);
                assert(i > k);
                assert(lex_lt(s[k].name, s[i].name));
            }
        }
    }
}

/// Writing a profile to a store leaves a store.
pub proof fn lemma_upsert_sorted(s: Seq<ProfileView>, p: ProfileView)
    requires
        sorted_by_name(s),
    ensures
        sorted_by_name(spec_upsert(s, p)),
        index_of(spec_upsert(s, p), p.name) == Some(rank(s, p.name)),
        spec_upsert(s, p)[rank(s, p.name)] == p,
{
    lemma_rank_splits(s, p.name);
    lemma_names_ascending(s);
    let k = rank(s, p.name);
    let r = spec_upsert(s, p);
    if k < s.len() && s[k].name == p.name {
        assert(names(r) =~= names(s));
    } else {
        keyed::lemma_insert_ascending(names(s), p.name);
        assert(names(r) =~= names(s).insert(k, p.name));
    }
    lemma_names_ascending(r);
    assert forall|j: int| 0 <= j < k implies lex_lt(#[trigger] r[j].name, p.name) by {
        assert(r[j] == s[j]);
    }
    lemma_lex_irreflexive(p.name);
    lemma_rank(r, p.name, k);
}

/// Taking the default mark from every profile leaves a store.
pub proof fn lemma_clear_defaults_sorted(s: Seq<ProfileView>)
    requires
        sorted_by_name(s),
    ensures
        sorted_by_name(clear_defaults(s)),
{
    let r = clear_defaults(s);
    assert forall|i: int, j: int| 0 <= i < j < r.len() implies lex_lt(
        #[trigger] r[i].name,
        #[trigger] r[j].name,
    ) by {
        assert(r[i].name == s[i].name && r[j].name == s[j].name);
    }
}

/// Collecting profiles gives a store.
pub proof fn lemma_collect_sorted(v: Seq<ProfileView>)
    ensures
        sorted_by_name(spec_collect(v)),
    decreases v.len(),
{
    if v.len() > 0 {
        lemma_collect_sorted(v.drop_last());
        lemma_upsert_sorted(spec_collect(v.drop_last()), v.last());
    }
}

/// Whether exactly one of the profiles is marked as the default.
pub open spec fn exactly_one_default(s: Seq<ProfileView>) -> bool {
    exists|k: int|
        0 <= k < s.len() && (#[trigger] s[k]).default && forall|j: int|
            0 <= j < s.len() && (#[trigger] s[j]).default ==> j == k
}

/// No profile is counted exactly where none is marked as the default.
pub proof fn lemma_count_defaults_zero(s: Seq<ProfileView>)
    ensures
        count_defaults(s) == 0 <==> forall|i: int| 0 <= i < s.len() ==> !(#[trigger] s[i]).default,
    decreases s.len(),
{
    if s.len() > 0 {
        let front = s.drop_last();
        lemma_count_defaults_zero(front);
        assert forall|i: int| 0 <= i < front.len() implies front[i] == s[i] by {}
        if count_defaults(s) == 0 {
            assert forall|i: int| 0 <= i < s.len() implies !(#[trigger] s[i]).default by {
                if i < front.len() {
                    assert(front[i] == s[i]);
                }
            }
        } else if !s.last().default {
            let i = choose|i: int| 0 <= i < front.len() && (#[trigger] front[i]).default;
            assert(s[i].default);
        } else {
            assert(s[s.len() - 1].default);
        }
    }
}

/// One profile is counted exactly where exactly one is marked as the default.
pub proof fn lemma_count_defaults_one(s: Seq<ProfileView>)
    ensures
        count_defaults(s) == 1 <==> exactly_one_default(s),
    decreases s.len(),
{
    if s.len() > 0 {
        let front = s.drop_last();
        let n = s.len() - 1;
        lemma_count_defaults_one(front);
        lemma_count_defaults_zero(front);
        assert forall|i: int| 0 <= i < front.len() implies front[i] == s[i] by {}
        if s.last().default {
            if count_defaults(front) == 0 {
                assert(s[n].default);
                assert forall|j: int| 0 <= j < s.len() && (#[trigger] s[j]).default implies j
                    == n by {
                    if j < n {
                        assert(front[j] == s[j]);
                    }
                }
            } else {
                let i = choose|i: int| 0 <= i < front.len() && (#[trigger] front[i]).default;
                assert(s[i].default && s[n].default && i != n);
            }
        } else {
            if exactly_one_default(front) {
                let k = choose|k: int|
                    0 <= k < front.len() && (#[trigger] front[k]).default && forall|j: int|
                        0 <= j < front.len() && (#[trigger] front[j]).default ==> j == k;
                assert(s[k].default);
                assert forall|j: int| 0 <= j < s.len() && (#[trigger] s[j]).default implies j
                    == k by {
                    if j < n {
                        assert(front[j] == s[j]);
                    }
                }
            }
            if exactly_one_default(s) {
                let k = choose|k: int|
                    0 <= k < s.len() && (#[trigger] s[k]).default && forall|j: int|
                        0 <= j < s.len() && (#[trigger] s[j]).default ==> j == k;
                assert(front[k].default);
                assert forall|j: int| 0 <= j < front.len() && (#[trigger] front[j]).default implies j
                    == k by {
                    assert(s[j].default);
                }
            }
        }
    }
}

/// Profiles that are not none can be used exactly where exactly one of them
/// is marked as the default. With no default or with several the failure is
/// one of integrity.
pub proof fn lemma_usable_iff_one_default(s: Seq<ProfileView>)
    requires
        s.len() > 0,
    ensures
        spec_verify(s) is Ok <==> exactly_one_default(s),
        spec_verify(s) matches Ok(p) ==> p.default && s.contains(p),
        !exactly_one_default(s) ==> spec_verify(s) is Err && (spec_verify(s)->Err_0
            == BeamError::NoDefaultProfile || spec_verify(s)->Err_0
            == BeamError::MultipleDefaultProfiles),
        spec_verify(s) == Err::<ProfileView, BeamError>(BeamError::NoDefaultProfile) <==> forall|
            i: int,
        | 0 <= i < s.len() ==> !(#[trigger] s[i]).default,
{
    lemma_count_defaults_one(s);
    lemma_count_defaults_zero(s);
    if exactly_one_default(s) {
        let k = choose|k: int|
            0 <= k < s.len() && (#[trigger] s[k]).default && forall|j: int|
                0 <= j < s.len() && (#[trigger] s[j]).default ==> j == k;
        lemma_first_default(s, k);
    }
}

/// Writing a default profile leaves it the only default of the store,
/// whatever the store held.
pub proof fn lemma_write_default_is_only_default(s: Seq<ProfileView>, p: ProfileView)
    requires
        sorted_by_name(s),
        p.default,
    ensures
        forall|i: int|
            0 <= i < spec_write(s, p).len() && (#[trigger] spec_write(s, p)[i]).default
                ==> spec_write(s, p)[i] == p,
        forall|i: int|
            0 <= i < spec_write(s, p).len() && (#[trigger] spec_write(s, p)[i]).name != p.name
                ==> !spec_write(s, p)[i].default,
        exactly_one_default(spec_write(s, p)),
        count_defaults(spec_write(s, p)) == 1,
        spec_verify(spec_write(s, p)) == Ok::<ProfileView, BeamError>(p),
{
    let c = clear_defaults(s);
    let r = spec_write(s, p);
    let k = rank(c, p.name);
    lemma_clear_defaults_sorted(s);
    lemma_rank_splits(c, p.name);
    lemma_upsert_sorted(c, p);
    assert forall|i: int| 0 <= i < r.len() && i != k implies !(#[trigger] r[i]).default by {
        if k < c.len() && c[k].name == p.name {
            assert(r[i] == c[i]);
        } else if i < k {
            assert(r[i] == c[i]);
        } else {
            assert(r[i] == c[i - 1]);
        }
    }
    assert(r[k] == p);
    assert(r[k].default);
    lemma_lex_irreflexive(p.name);
    assert forall|i: int| 0 <= i < r.len() && (#[trigger] r[i]).name != p.name implies !r[i].default by {
        assert(i != k);
    }
    lemma_count_defaults_one(r);
    lemma_first_default(r, k);
}

/// After a profile was written the store holds it under its name, and
/// under every other name what it held before, without the default mark
/// where the written profile is the default.
pub proof fn lemma_write_keeps_others(s: Seq<ProfileView>, p: ProfileView, name: Seq<char>)
    requires
        sorted_by_name(s),
    ensures
        sorted_by_name(spec_write(s, p)),
        index_of(spec_write(s, p), p.name) matches Some(k) && spec_write(s, p)[k] == p,
        name != p.name ==> match index_of(s, name) {
            Some(i) => index_of(spec_write(s, p), name) matches Some(j) && spec_write(s, p)[j] == (
            if p.default {
                ProfileView { default: false, ..s[i] }
            } else {
                s[i]
            }),
            None => index_of(spec_write(s, p), name) is None,
        },
{
    let c = if p.default {
        clear_defaults(s)
    } else {
        s
    };
    let r = spec_write(s, p);
    let k = rank(c, p.name);
    if p.default {
        lemma_clear_defaults_sorted(s);
    }
    lemma_rank_splits(c, p.name);
    lemma_upsert_sorted(c, p);
    lemma_index_of(s, name);
    lemma_index_of(r, name);
    lemma_rank_splits(s, name);
    lemma_rank_splits(r, name);
    if name != p.name {
        let replaced = k < c.len() && c[k].name == p.name;
        match index_of(s, name) {
            Some(i) => {
                let j = if replaced || i < k {
                    i
                } else {
                    i + 1
                };
                assert(c[i].name == name);
                assert(r[j] == c[i]);
                lemma_name_is_at(r, name, j);
            },
            None => {
                if index_of(r, name) is Some {
                    let j = index_of(r, name)->0;
                    assert(r[j].name == name);
                    let i = if replaced || j < k {
                        j
                    } else {
                        j - 1
                    };
                    assert(j != k);
                    assert(r[j] == c[i]);
                    assert(s[i].name == name);
                }
            },
        }
    }
}

/// Removing a profile from a store with exactly one default leaves a store
/// with exactly one default, and one profile less.
pub proof fn lemma_remove_keeps_one_default(
    s: Seq<ProfileView>,
    name: Seq<char>,
    replacement: Option<Seq<char>>,
)
    requires
        sorted_by_name(s),
        exactly_one_default(s),
        spec_remove(s, name, replacement) is Ok,
    ensures
        spec_remove(s, name, replacement)->Ok_0.len() == s.len() - 1,
        sorted_by_name(spec_remove(s, name, replacement)->Ok_0),
        exactly_one_default(spec_remove(s, name, replacement)->Ok_0),
        index_of(spec_remove(s, name, replacement)->Ok_0, name) is None,
{
    let t = spec_remove(s, name, replacement)->Ok_0;
    lemma_index_of(s, name);
    let i = index_of(s, name)->0;
    let d = choose|k: int|
        0 <= k < s.len() && (#[trigger] s[k]).default && forall|j: int|
            0 <= j < s.len() && (#[trigger] s[j]).default ==> j == k;
    let kept = if s[i].default {
        let other = replacement->0;
        lemma_index_of(s, other);
        let j = index_of(s, other)->0;
        s.update(j, ProfileView { default: true, ..s[j] })
    } else {
        s
    };
    assert(t == kept.remove(i));
    assert forall|a: int| 0 <= a < t.len() implies (#[trigger] t[a]) == kept[if a < i {
        a
    } else {
        a + 1
    }] by {}
    assert forall|a: int, b: int| 0 <= a < b < t.len() implies lex_lt(
        #[trigger] t[a].name,
        #[trigger] t[b].name,
    ) by {
        let x = if a < i { a } else { a + 1 };
        let y = if b < i { b } else { b + 1 };
        assert(t[a].name == s[x].name && t[b].name == s[y].name);
    }
    let keeper = if s[i].default {
        index_of(s, replacement->0)->0
    } else {
        d
    };
    assert(keeper != i);
    let place = if keeper < i {
        keeper
    } else {
        keeper - 1
    };
    assert(t[place] == kept[keeper]);
    assert(t[place].default);
    assert forall|a: int| 0 <= a < t.len() && (#[trigger] t[a]).default implies a == place by {
        let x = if a < i { a } else { a + 1 };
        assert(t[a] == kept[x]);
        if x != keeper {
            assert(kept[x] == s[x]);
            assert(s[x].default);
        }
    }
    lemma_index_of(t, name);
    if index_of(t, name) is Some {
        let a = index_of(t, name)->0;
        let x = if a < i { a } else { a + 1 };
        assert(t[a].name == s[x].name);
        lemma_lex_irreflexive(name);
        if x < i {
            assert(lex_lt(s[x].name, s[i].name));
        } else {
            assert(lex_lt(s[i].name, s[x].name));
        }
    }
}

/// In a store the profile at a position is the one found under its name.
pub proof fn lemma_name_is_at(s: Seq<ProfileView>, name: Seq<char>, k: int)
    requires
        sorted_by_name(s),
        0 <= k < s.len(),
        s[k].name == name,
    ensures
        index_of(s, name) == Some(k),
{
    lemma_lex_irreflexive(name);
    assert forall|j: int| 0 <= j < k implies lex_lt(#[trigger] s[j].name, name) by {}
    lemma_rank(s, name, k);
}

impl Keyed for Profile {
    open spec fn spec_key(&self) -> Seq<char> {
        self.name@
    }

    fn key(&self) -> (res: &str) {
        self.name.as_str()
    }
}

/// The profiles under their names: no name twice, in the order of the names.
#[derive(Debug)]
pub struct Profiles {
    profiles: Vec<Profile>,
}

impl View for Profiles {
    type V = Seq<ProfileView>;

    closed spec fn view(&self) -> Seq<ProfileView> {
        views(self.profiles@)
    }
}

impl Profiles {
    #[verifier::type_invariant]
    spec fn ordered(&self) -> bool {
        sorted_by_name(views(self.profiles@))
    }

    /// The store without a profile.
    pub fn new() -> (res: Profiles)
        ensures
            res@ == Seq::<ProfileView>::empty(),
    {
        let res = Profiles { profiles: Vec::new() };
        assert(res@ =~= Seq::<ProfileView>::empty());
        res
    }

    /// The profiles of the store, in the order of their names.
    pub fn entries(&self) -> (res: &Vec<Profile>)
        ensures
            views(res@) == self@,
            sorted_by_name(self@),
    {
        proof {
            use_type_invariant(self);
        }
        &self.profiles
    }

    /// How many profiles the store holds.
    pub fn len(&self) -> (res: usize)
        ensures
            res == self@.len(),
    {
        self.profiles.len()
    }

    /// Whether the store holds no profile.
    pub fn is_empty(&self) -> (res: bool)
        ensures
            res == (self@.len() == 0),
    {
        self.profiles.len() == 0
    }

    /// Where the profile called `name` stands among `entries`.
    fn lookup(entries: &Vec<Profile>, name: &str) -> (res: Option<usize>)
        ensures
            match res {
                Some(k) => index_of(views(entries@), name@) == Some(k as int) && k < entries.len(),
                None => index_of(views(entries@), name@) is None,
            },
    {
        assert(keys_of(entries@) =~= names(views(entries@)));
        keyed::lookup(entries, name)
    }

    /// Puts `profile` among `entries`, in the place of the entry of its name
    /// if there is one.
    fn upsert(entries: &mut Vec<Profile>, profile: Profile)
        requires
            sorted_by_name(views(old(entries)@)),
        ensures
            views(final(entries)@) == spec_upsert(views(old(entries)@), profile@),
            sorted_by_name(views(final(entries)@)),
    {
        let ghost before = entries@;
        proof {
            lemma_upsert_sorted(views(before), profile@);
            assert(keys_of(before) =~= names(views(before)));
        }
        keyed::upsert(entries, profile);
        proof {
            let k = rank(views(before), profile@.name);
            if k < before.len() && before[k].spec_key() == profile.spec_key() {
                assert(views(entries@) =~= views(before).update(k, profile@));
            } else {
                assert(views(entries@) =~= views(before).insert(k, profile@));
            }
        }
    }

    /// Writes `profile` to the store, in the place of the profile of its
    /// name if there is one. A profile that is the default takes the mark
    /// from every other profile of the store.
    pub fn write(&mut self, profile: Profile)
        ensures
            final(self)@ == spec_write(old(self)@, profile@),
    {
        proof {
            use_type_invariant(&*self);
        }
        let ghost before = self@;
        let clear = profile.default;
        let mut entries: Vec<Profile> = Vec::new();
        let mut i: usize = 0;
        while i < self.profiles.len()
            invariant
                i <= self.profiles.len(),
                before == views(self.profiles@),
                entries.len() == i,
                forall|j: int|
                    0 <= j < i ==> (#[trigger] entries[j])@ == (if clear {
                        ProfileView { default: false, ..before[j] }
                    } else {
                        before[j]
                    }),
            decreases self.profiles.len() - i,
        {
            let mut entry = self.profiles[i].clone();
            if clear {
                entry.default = false;
            }
            entries.push(entry);
            i = i + 1;
        }
        proof {
            if clear {
                assert(views(entries@) =~= clear_defaults(before));
                lemma_clear_defaults_sorted(before);
            } else {
                assert(views(entries@) =~= before);
            }
        }
        Profiles::upsert(&mut entries, profile);
        self.profiles = entries;
    }

    /// Removes the profile called `name`. The only profile of a store stays.
    /// The default profile is removed only together with the name of
    /// another profile, `replacement`, which becomes the default.
    pub fn remove(&mut self, name: &str, replacement: Option<&str>) -> (res: Result<(), Failure>)
        ensures
            match res {
                Ok(()) => spec_remove(old(self)@, name@, replacement.deep_view()) == Ok::<
                    Seq<ProfileView>,
                    FailureView,
                >(final(self)@),
                Err(f) => spec_remove(old(self)@, name@, replacement.deep_view()) == Err::<
                    Seq<ProfileView>,
                    FailureView,
                >(f@) && final(self)@ == old(self)@,
            },
    {
        proof {
            use_type_invariant(&*self);
        }
        let ghost before = self@;
        let i = match Profiles::lookup(&self.profiles, name) {
            Some(i) => i,
            None => {
                return Err(Failure::new(BeamError::ProfileNotFound, name));
            },
        };
        if self.profiles.len() == 1 {
            return Err(Failure::new(BeamError::LastProfile, name));
        }
        let mut promoted: Option<usize> = None;
        if self.profiles[i].default {
            let other = match replacement {
                Some(other) => other,
                None => {
                    return Err(Failure::new(BeamError::ReplacementRequired, name));
                },
            };
            if text_eq(other, name) {
                return Err(Failure::new(BeamError::ReplacementRequired, name));
            }
            match Profiles::lookup(&self.profiles, other) {
                Some(j) => {
                    promoted = Some(j);
                },
                None => {
                    return Err(Failure::new(BeamError::ProfileNotFound, other));
                },
            }
        }
        let ghost kept = match promoted {
            Some(j) => before.update(j as int, ProfileView { default: true, ..before[j as int] }),
            None => before,
        };
        let mut entries: Vec<Profile> = Vec::new();
        let mut k: usize = 0;
        while k < self.profiles.len()
            invariant
                k <= self.profiles.len(),
                i < self.profiles.len(),
                before == views(self.profiles@),
                kept.len() == before.len(),
                kept == match promoted {
                    Some(j) => before.update(
                        j as int,
                        ProfileView { default: true, ..before[j as int] },
                    ),
                    None => before,
                },
                promoted matches Some(j) ==> j < self.profiles.len(),
                entries.len() == (if k <= i {
                    k as int
                } else {
                    k - 1
                }),
                forall|j: int| 0 <= j < k && j < i ==> (#[trigger] entries[j])@ == kept[j],
                forall|j: int| i <= j < k - 1 ==> (#[trigger] entries[j])@ == kept[j + 1],
            decreases self.profiles.len() - k,
        {
            if k != i {
                let mut entry = self.profiles[k].clone();
                if promoted == Some(k) {
                    entry.default = true;
                }
                entries.push(entry);
            }
            k = k + 1;
        }
        proof {
            assert(views(entries@) =~= kept.remove(i as int));
            let r = views(entries@);
            assert forall|a: int, b: int| 0 <= a < b < r.len() implies lex_lt(
                #[trigger] r[a].name,
                #[trigger] r[b].name,
            ) by {
                let x = if a < i { a } else { a + 1 };
                let y = if b < i { b } else { b + 1 };
                assert(r[a].name == before[x].name);
                assert(r[b].name == before[y].name);
            }
        }
        self.profiles = entries;
        Ok(())
    }

    /// The stored profiles, as far as they can be used: `stored` is the
    /// store, or `None` where none exists yet.
    pub fn get(stored: Option<Profiles>) -> (res: Result<Vec<Profile>, BeamError>)
        ensures
            match res {
                Ok(profiles) => stored matches Some(store) && views(profiles@) == store@
                    && spec_verify(store@) is Ok,
                Err(e) => match stored {
                    None => e == BeamError::StoreMissing,
                    Some(store) => spec_verify(store@) == Err::<ProfileView, BeamError>(e),
                },
            },
    {
        match stored {
            None => Err(BeamError::StoreMissing),
            Some(store) => {
                let profiles: Vec<Profile> = store.profiles;
                match Profiles::verify_profiles_integrity(profiles.as_slice()) {
                    Ok(_) => Ok(profiles),
                    Err(e) => Err(e),
                }
            },
        }
    }

    /// The default profile of the store `stored`, which is `None` where no
    /// store exists yet.
    pub fn get_default(stored: Option<Profiles>) -> (res: Result<Profile, BeamError>)
        ensures
            match res {
                Ok(profile) => stored matches Some(store) && spec_verify(store@) == Ok::<
                    ProfileView,
                    BeamError,
                >(profile@),
                Err(e) => match stored {
                    None => e == BeamError::StoreMissing,
                    Some(store) => spec_verify(store@) == Err::<ProfileView, BeamError>(e),
                },
            },
    {
        match Profiles::get(stored) {
            Ok(profiles) => Profiles::verify_profiles_integrity(profiles.as_slice()),
            Err(e) => Err(e),
        }
    }

    /// The profile of the store that is called `name`.
    pub fn find(&self, name: &str) -> (res: Option<&Profile>)
        ensures
            match res {
                Some(profile) => index_of(self@, name@) matches Some(k) && profile@ == self@[k]
                    && profile@.name == name@,
                None => index_of(self@, name@) is None,
            },
    {
        proof {
            use_type_invariant(self);
        }
        match Profiles::lookup(&self.profiles, name) {
            Some(k) => Some(&self.profiles[k]),
            None => None,
        }
    }

    /// The default profile of `profiles`. It is an error for the profiles to
    /// be none, to have no default, or to have several.
    pub fn verify_profiles_integrity(profiles: &[Profile]) -> (res: Result<Profile, BeamError>)
        ensures
            match res {
                Ok(p) => spec_verify(views(profiles@)) == Ok::<ProfileView, BeamError>(p@),
                Err(e) => spec_verify(views(profiles@)) == Err::<ProfileView, BeamError>(e),
            },
    {
        let ghost v = views(profiles@);
        if profiles.len() == 0 {
            return Err(BeamError::NoProfiles);
        }
        let mut count: usize = 0;
        let mut first: usize = 0;
        let mut i: usize = 0;
        while i < profiles.len()
            invariant
                i <= profiles.len(),
                v == views(profiles@),
                count == count_defaults(v.take(i as int)),
                count <= i,
                count == 0 ==> forall|j: int| 0 <= j < i ==> !v[j].default,
                count > 0 ==> first < i && v[first as int].default && forall|j: int|
                    0 <= j < first ==> !v[j].default,
            decreases profiles.len() - i,
        {
            proof {
                assert(v.take(i + 1).drop_last() =~= v.take(i as int));
                assert(v.take(i + 1).last() == v[i as int]);
            }
            if profiles[i].default {
                if count == 0 {
                    first = i;
                }
                count = count + 1;
            }
            i = i + 1;
        }
        proof {
            assert(v.take(i as int) =~= v);
        }
        if count == 0 {
            Err(BeamError::NoDefaultProfile)
        } else if count == 1 {
            proof {
                lemma_first_default(v, first as int);
            }
            Ok(profiles[first].clone())
        } else {
            Err(BeamError::MultipleDefaultProfiles)
        }
    }

    /// The place of the first of `profiles` that is called `name`.
    pub fn find_named(profiles: &[Profile], name: &str) -> (res: Option<usize>)
        ensures
            match res {
                Some(i) => i < profiles.len() && first_named(views(profiles@), name@) == i,
                None => first_named(views(profiles@), name@) == profiles.len(),
            },
    {
        let ghost v = views(profiles@);
        let mut i: usize = 0;
        while i < profiles.len()
            invariant
                i <= profiles.len(),
                v == views(profiles@),
                forall|j: int| 0 <= j < i ==> (#[trigger] v[j]).name != name@,
            decreases profiles.len() - i,
        {
            if text_eq(profiles[i].name.as_str(), name) {
                proof {
                    lemma_first_named(v, name@, i as int);
                }
                return Some(i);
            }
            i = i + 1;
        }
        proof {
            lemma_first_named(v, name@, i as int);
        }
        None
    }

    /// The names of the profiles in the order given, the default one marked.
    pub fn get_names(profiles: &[Profile]) -> (res: Result<Vec<String>, BeamError>)
        ensures
            res is Ok,
            res->Ok_0.len() == profiles.len(),
            forall|i: int|
                0 <= i < profiles.len() ==> (#[trigger] res->Ok_0[i])@ == display_name(
                    profiles[i]@,
                ),
    {
        let mut names: Vec<String> = Vec::new();
        let mut i: usize = 0;
        while i < profiles.len()
            invariant
                i <= profiles.len(),
                names.len() == i,
                forall|j: int| 0 <= j < i ==> (#[trigger] names[j])@ == display_name(profiles[j]@),
            decreases profiles.len() - i,
        {
            let mut name = profiles[i].name.clone();
            if profiles[i].default {
                name.append(" (default)");
            }
            names.push(name);
            i = i + 1;
        }
        Ok(names)
    }

    /// The profiles whose host pattern occurs in `hostname`, in their order.
    /// A host pattern that is no regular expression is an error.
    pub fn matching_profiles(hostname: &str, profiles: &[Profile]) -> (res: Result<
        Vec<Profile>,
        BeamError,
    >)
        ensures
            res is Ok <==> forall|i: int|
                0 <= i < profiles.len() ==> pattern_is_valid(#[trigger] views(profiles@)[i]),
            res matches Ok(found) ==> views(found@) == matching(views(profiles@), hostname@),
            res matches Err(e) ==> e == BeamError::InvalidPattern,
    {
        let ghost v = views(profiles@);
        let mut found: Vec<Profile> = Vec::new();
        let mut i: usize = 0;
        while i < profiles.len()
            invariant
                i <= profiles.len(),
                v == views(profiles@),
                forall|j: int| 0 <= j < i ==> pattern_is_valid(#[trigger] v[j]),
                views(found@) == matching(v.take(i as int), hostname@),
            decreases profiles.len() - i,
        {
            proof {
                assert(v.take(i + 1).drop_last() =~= v.take(i as int));
                assert(v.take(i + 1).last() == v[i as int]);
            }
            let ghost before = views(found@);
            match &profiles[i].host_pattern {
                Some(pattern) => {
                    match match_pattern(pattern.as_str(), hostname) {
                        PatternMatch::Invalid => {
                            assert(!pattern_is_valid(v[i as int]));
                            return Err(BeamError::InvalidPattern);
                        },
                        PatternMatch::Found => {
                            found.push(profiles[i].clone());
                            assert(views(found@) =~= before.push(v[i as int]));
                        },
                        PatternMatch::Absent => {},
                    }
                },
                None => {},
            }
            i = i + 1;
        }
        proof {
            assert(v.take(i as int) =~= v);
        }
        Ok(found)
    }

    /// The profile that is chosen among `matched`, the profiles that apply
    /// to a host: none of none, the only one of one. Of several, those
    /// without a priority are set aside, and of the others the one with the
    /// lowest priority is chosen; of several with that priority, the first.
    pub fn select(matched: &[Profile]) -> (res: Option<Profile>)
        ensures
            view_some(res) == spec_select(views(matched@)),
    {
        let ghost v = views(matched@);
        if matched.len() == 0 {
            return None;
        }
        if matched.len() == 1 {
            return Some(matched[0].clone());
        }
        let mut best: Option<usize> = None;
        let mut i: usize = 0;
        while i < matched.len()
            invariant
                i <= matched.len(),
                v == views(matched@),
                match best {
                    Some(k) => k < i && v[k as int].priority is Some && best_priority(
                        v.take(i as int),
                    ) == Some(v[k as int]),
                    None => best_priority(v.take(i as int)) is None,
                },
            decreases matched.len() - i,
        {
            proof {
                assert(v.take(i + 1).drop_last() =~= v.take(i as int));
                assert(v.take(i + 1).last() == v[i as int]);
            }
            match matched[i].priority {
                Some(priority) => {
                    match best {
                        Some(k) => {
                            let lowest = match matched[k].priority {
                                Some(p) => p,
                                None => priority,
                            };
                            if priority < lowest {
                                best = Some(i);
                            }
                        },
                        None => {
                            best = Some(i);
                        },
                    }
                },
                None => {},
            }
            i = i + 1;
        }
        proof {
            assert(v.take(i as int) =~= v);
        }
        match best {
            Some(k) => Some(matched[k].clone()),
            None => None,
        }
    }

    /// The profile for the host `hostname` among `profiles`: the one whose
    /// host pattern occurs in the name, and of several the one that `select`
    /// chooses. A host pattern that is no regular expression is an error.
    pub fn get_matching(hostname: &str, profiles: Vec<Profile>) -> (res: Result<
        Option<Profile>,
        BeamError,
    >)
        ensures
            resolves_to(
                hostname@,
                views(profiles@),
                match res {
                    Ok(chosen) => Ok(view_some(chosen)),
                    Err(e) => Err(e),
                },
            ),
    {
        match Profiles::matching_profiles(hostname, profiles.as_slice()) {
            Ok(found) => Ok(Profiles::select(found.as_slice())),
            Err(e) => Err(e),
        }
    }
}

} // verus!

verus! {

impl Clone for Profiles {
    fn clone(&self) -> (res: Profiles)
        ensures
            res@ == self@,
    {
        proof {
            use_type_invariant(self);
        }
        let entries = self.profiles.clone();
        assert(views(entries@) =~= views(self.profiles@)) by {
            assert forall|i: int| 0 <= i < entries.len() implies entries[i]@
                == self.profiles[i]@ by {
                assert(cloned::<Profile>(self.profiles[i], entries[i]));
            }
        }
        Profiles { profiles: entries }
    }
}

impl Default for Profiles {
    fn default() -> (res: Profiles)
        ensures
            res@ == Seq::<ProfileView>::empty(),
    {
        Profiles::new()
    }
}

impl From<Vec<Profile>> for Profiles {
    /// The store of the profiles of `profiles`, each under its name. Of
    /// several profiles with one name the last is kept.
    fn from(profiles: Vec<Profile>) -> (res: Profiles)
        ensures
            res@ == spec_collect(views(profiles@)),
    {
        let ghost v = views(profiles@);
        let mut entries: Vec<Profile> = Vec::new();
        let mut i: usize = 0;
        assert(views(entries@) =~= spec_collect(v.take(0)));
        while i < profiles.len()
            invariant
                i <= profiles.len(),
                v == views(profiles@),
                views(entries@) == spec_collect(v.take(i as int)),
                sorted_by_name(views(entries@)),
            decreases profiles.len() - i,
        {
            proof {
                assert(v.take(i + 1).drop_last() =~= v.take(i as int));
                assert(v.take(i + 1).last() == v[i as int]);
            }
            Profiles::upsert(&mut entries, profiles[i].clone());
            i = i + 1;
        }
        proof {
            assert(v.take(i as int) =~= v);
        }
        Profiles { profiles: entries }
    }
}

impl vstd::std_specs::convert::FromSpecImpl<Vec<Profile>> for Profiles {
    open spec fn obeys_from_spec() -> bool {
        false
    }

    closed spec fn from_spec(v: Vec<Profile>) -> Profiles {
        choose|store: Profiles| store@ == spec_collect(views(v@))
    }
}

impl From<Profiles> for Vec<Profile> {
    /// The profiles of the store, in the order of their names.
    fn from(store: Profiles) -> (res: Vec<Profile>)
        ensures
            views(res@) == store@,
            sorted_by_name(store@),
    {
        proof {
            use_type_invariant(&store);
        }
        store.profiles
    }
}

impl vstd::std_specs::convert::FromSpecImpl<Profiles> for Vec<Profile> {
    open spec fn obeys_from_spec() -> bool {
        true
    }

    closed spec fn from_spec(store: Profiles) -> Vec<Profile> {
        store.profiles
    }
}

} // verus!
