//! Entries that are kept in the strict order of their keys, so that no key
//! occurs twice: what the store of profiles and the labels of a node share.

use vstd::prelude::*;
use crate::text::lemma_lex_total;
use crate::text::lemma_lex_transitive;
use crate::text::lex_lt;
use crate::text::text_eq;
use crate::text::text_lt;

verus! {

/// Whether the keys stand in strict order.
pub open spec fn ascending(keys: Seq<Seq<char>>) -> bool {
    forall|i: int, j: int| 0 <= i < j < keys.len() ==> lex_lt(#[trigger] keys[i], #[trigger] keys[j])
}

/// How many keys stand at the front of `keys` before `name`.
pub open spec fn rank(keys: Seq<Seq<char>>, name: Seq<char>) -> int
    decreases keys.len(),
{
    if keys.len() == 0 || !lex_lt(keys[0], name) {
        0
    } else {
        1 + rank(keys.drop_first(), name)
    }
}

/// `rank` is the position before which every key is before `name` and at
/// which the key is not.
pub proof fn lemma_rank(keys: Seq<Seq<char>>, name: Seq<char>, k: int)
    requires
        0 <= k <= keys.len(),
        forall|j: int| 0 <= j < k ==> lex_lt(#[trigger] keys[j], name),
        k < keys.len() ==> !lex_lt(keys[k], name),
    ensures
        rank(keys, name) == k,
    decreases k,
{
    if k > 0 {
        let t = keys.drop_first();
        assert(lex_lt(keys[0], name));
        assert forall|j: int| 0 <= j < k - 1 implies lex_lt(#[trigger] t[j], name) by {
            assert(t[j] == keys[j + 1]);
        }
        if k < keys.len() {
            assert(t[k - 1] == keys[k]);
        }
        lemma_rank(t, name, k - 1);
    }
}

/// Among keys in strict order those before `rank` are before `name`, and
/// those from there on are not.
pub proof fn lemma_rank_splits(keys: Seq<Seq<char>>, name: Seq<char>)
    requires
        ascending(keys),
    ensures
        0 <= rank(keys, name) <= keys.len(),
        forall|j: int| 0 <= j < rank(keys, name) ==> lex_lt(#[trigger] keys[j], name),
        forall|j: int| rank(keys, name) <= j < keys.len() ==> !lex_lt(#[trigger] keys[j], name),
    decreases keys.len(),
{
    if keys.len() > 0 {
        let t = keys.drop_first();
        assert forall|i: int, j: int| 0 <= i < j < t.len() implies lex_lt(
            #[trigger] t[i],
            #[trigger] t[j],
        ) by {
            assert(t[i] == keys[i + 1] && t[j] == keys[j + 1]);
        }
        lemma_rank_splits(t, name);
        if lex_lt(keys[0], name) {
            assert forall|j: int| 0 <= j < rank(keys, name) implies lex_lt(
                #[trigger] keys[j],
                name,
            ) by {
                if j > 0 {
                    assert(t[j - 1] == keys[j]);
                }
            }
            assert forall|j: int| rank(keys, name) <= j < keys.len() implies !lex_lt(
                #[trigger] keys[j],
                name,
            ) by {
                assert(t[j - 1] == keys[j]);
            }
        } else {
            assert forall|j: int| 0 <= j < keys.len() implies !lex_lt(#[trigger] keys[j], name) by {
                if j > 0 && lex_lt(keys[j], name) {
                    assert(lex_lt(keys[0], keys[j]));
                    lemma_lex_transitive(keys[0], keys[j], name);
                }
            }
        }
    }
}

/// A key that is new keeps the order where it is put at its rank.
pub proof fn lemma_insert_ascending(keys: Seq<Seq<char>>, name: Seq<char>)
    requires
        ascending(keys),
        !(rank(keys, name) < keys.len() && keys[rank(keys, name)] == name),
    ensures
        0 <= rank(keys, name) <= keys.len(),
        ascending(keys.insert(rank(keys, name), name)),
{
    lemma_rank_splits(keys, name);
    let k = rank(keys, name);
    let r = keys.insert(k, name);
    assert forall|i: int, j: int| 0 <= i < j < r.len() implies lex_lt(
        #[trigger] r[i],
        #[trigger] r[j],
    ) by {
        if j < k {
            assert(r[i] == keys[i] && r[j] == keys[j]);
        } else if j == k {
            assert(r[i] == keys[i]);
        } else if i == k {
            assert(r[j] == keys[j - 1]);
            lemma_lex_total(name, keys[k]);
            if j - 1 > k {
                assert(lex_lt(keys[k], keys[j - 1]));
                lemma_lex_transitive(name, keys[k], keys[j - 1]);
            }
        } else if i < k {
            assert(r[i] == keys[i] && r[j] == keys[j - 1]);
        } else {
            assert(r[i] == keys[i - 1] && r[j] == keys[j - 1]);
        }
    }
}

/// What is kept under a key.
pub trait Keyed {
    /// The key.
    spec fn spec_key(&self) -> Seq<char>;

    /// The key.
    fn key(&self) -> (res: &str)
        ensures
            res@ == self.spec_key(),
    ;
}

/// The keys of the entries.
pub open spec fn keys_of<T: Keyed>(s: Seq<T>) -> Seq<Seq<char>> {
    Seq::new(s.len(), |i: int| s[i].spec_key())
}

/// The entries with `item` in the place of the entry of its key, or, where
/// there is none, added at the rank of its key.
pub open spec fn put<T: Keyed>(s: Seq<T>, item: T) -> Seq<T> {
    let k = rank(keys_of(s), item.spec_key());
    if k < s.len() && s[k].spec_key() == item.spec_key() {
        s.update(k, item)
    } else {
        s.insert(k, item)
    }
}

/// The rank of `name` among the keys of `entries`.
pub(crate) fn position<T: Keyed>(entries: &Vec<T>, name: &str) -> (k: usize)
    ensures
        k == rank(keys_of(entries@), name@),
        k <= entries.len(),
{
    let ghost keys = keys_of(entries@);
    let mut k: usize = 0;
    while k < entries.len() && text_lt(entries[k].key(), name)
        invariant
            k <= entries.len(),
            keys == keys_of(entries@),
            forall|j: int| 0 <= j < k ==> lex_lt(#[trigger] keys[j], name@),
        decreases entries.len() - k,
    {
        k = k + 1;
    }
    proof {
        lemma_rank(keys, name@, k as int);
    }
    k
}

/// The place of the entry with the key `name`, if its rank holds one.
pub(crate) fn lookup<T: Keyed>(entries: &Vec<T>, name: &str) -> (res: Option<usize>)
    ensures
        0 <= rank(keys_of(entries@), name@) <= entries.len(),
        match res {
            Some(k) => k == rank(keys_of(entries@), name@) && k < entries.len()
                && entries@[k as int].spec_key() == name@,
            None => !(rank(keys_of(entries@), name@) < entries.len() && entries@[rank(
                keys_of(entries@),
                name@,
            )].spec_key() == name@),
        },
{
    let k = position(entries, name);
    if k < entries.len() && text_eq(entries[k].key(), name) {
        Some(k)
    } else {
        None
    }
}

/// Puts `item` among `entries`, in the place of the entry of its key if
/// there is one.
pub(crate) fn upsert<T: Keyed>(entries: &mut Vec<T>, item: T)
    ensures
        0 <= rank(keys_of(old(entries)@), item.spec_key()) <= old(entries).len(),
        final(entries)@ == put(old(entries)@, item),
{
    let k = position(entries, item.key());
    if k < entries.len() && text_eq(entries[k].key(), item.key()) {
        entries.set(k, item);
    } else {
        entries.insert(k, item);
    }
}

} // verus!
