//! The nodes of the directory, their listing for display, and the rules of
//! the cache that keeps the directory between invocations.

use vstd::prelude::*;
use vstd::string::*;
use crate::keyed::ascending;
use crate::keyed::keys_of;
use crate::keyed::lemma_insert_ascending;
use crate::keyed::lemma_rank_splits;
use crate::keyed::rank;
use crate::keyed::upsert;
use crate::keyed::Keyed;
use crate::text::blank;
use crate::text::byte_len;
use crate::text::byte_length;
use crate::text::chars_lt;
use crate::text::first_word;
use crate::text::is_word;
use crate::text::join;
use crate::text::joined;
use crate::text::lemma_byte_len_covers;
use crate::text::lemma_first_word_of_padded;
use crate::text::lemma_lex_asymmetric;
use crate::text::lemma_lex_total;
use crate::text::lemma_lex_transitive;
use crate::text::lemma_spaces_add;
use crate::text::lex_lt;
use crate::text::spaces;
use crate::text::to_chars;

verus! {

/// A label as characters: its key and its value.
pub type LabelView = (Seq<char>, Seq<char>);

/// The views of a sequence of labels.
pub open spec fn label_views(l: Seq<(String, String)>) -> Seq<LabelView> {
    Seq::new(l.len(), |i: int| (l[i].0@, l[i].1@))
}

/// The keys of the labels.
pub open spec fn label_keys(l: Seq<LabelView>) -> Seq<Seq<char>> {
    Seq::new(l.len(), |i: int| l[i].0)
}

/// Whether the labels stand in the strict order of their keys, so that no
/// key occurs twice.
pub open spec fn sorted_by_key(l: Seq<LabelView>) -> bool {
    ascending(label_keys(l))
}

/// How many labels stand at the front of `l` with a key before `key`.
pub open spec fn key_rank(l: Seq<LabelView>, key: Seq<char>) -> int {
    rank(label_keys(l), key)
}

/// The labels `l` with `label` in the place of the label of its key, or,
/// where there is none, added where the order of keys puts it.
pub open spec fn put_label(l: Seq<LabelView>, label: LabelView) -> Seq<LabelView> {
    let k = key_rank(l, label.0);
    if k < l.len() && l[k].0 == label.0 {
        l.update(k, label)
    } else {
        l.insert(k, label)
    }
}

/// The labels of `pairs` in the order of their keys, of those with one key
/// the last.
pub open spec fn collect_labels(pairs: Seq<LabelView>) -> Seq<LabelView>
    decreases pairs.len(),
{
    if pairs.len() == 0 {
        Seq::empty()
    } else {
        put_label(collect_labels(pairs.drop_last()), pairs.last())
    }
}

/// Putting a label among sorted labels leaves them sorted.
pub proof fn lemma_put_label_sorted(l: Seq<LabelView>, label: LabelView)
    requires
        sorted_by_key(l),
    ensures
        0 <= key_rank(l, label.0) <= l.len(),
        sorted_by_key(put_label(l, label)),
{
    lemma_rank_splits(label_keys(l), label.0);
    let k = key_rank(l, label.0);
    if k < l.len() && l[k].0 == label.0 {
        assert(label_keys(put_label(l, label)) =~= label_keys(l));
    } else {
        lemma_insert_ascending(label_keys(l), label.0);
        assert(label_keys(put_label(l, label)) =~= label_keys(l).insert(k, label.0));
    }
}

impl Keyed for (String, String) {
    open spec fn spec_key(&self) -> Seq<char> {
        self.0@
    }

    fn key(&self) -> (res: &str) {
        self.0.as_str()
    }
}

/// What the directory says of a node besides its host name.
#[derive(Debug)]
pub struct Metadata {
    name: String,
    labels: Vec<(String, String)>,
    expires: String,
    id: i64,
}

/// What a `Metadata` holds, with every text as its sequence of characters.
/// The labels stand in the order of their keys.
pub struct MetadataView {
    pub name: Seq<char>,
    pub labels: Seq<LabelView>,
    pub expires: Seq<char>,
    pub id: i64,
}

impl View for Metadata {
    type V = MetadataView;

    closed spec fn view(&self) -> MetadataView {
        MetadataView {
            name: self.name@,
            labels: label_views(self.labels@),
            expires: self.expires@,
            id: self.id,
        }
    }
}

impl Metadata {
    #[verifier::type_invariant]
    spec fn ordered(&self) -> bool {
        sorted_by_key(label_views(self.labels@))
    }

    /// The metadata with the labels of `labels`; of several labels with one
    /// key the last counts.
    pub fn new(name: String, labels: Vec<(String, String)>, expires: String, id: i64) -> (res:
        Metadata)
        ensures
            res@ == (MetadataView {
                name: name@,
                labels: collect_labels(label_views(labels@)),
                expires: expires@,
                id,
            }),
    {
        let ghost given = label_views(labels@);
        let mut kept: Vec<(String, String)> = Vec::new();
        let mut i: usize = 0;
        assert(label_views(kept@) =~= collect_labels(given.take(0)));
        while i < labels.len()
            invariant
                i <= labels.len(),
                given == label_views(labels@),
                label_views(kept@) == collect_labels(given.take(i as int)),
                sorted_by_key(label_views(kept@)),
            decreases labels.len() - i,
        {
            proof {
                assert(given.take(i + 1).drop_last() =~= given.take(i as int));
                assert(given.take(i + 1).last() == given[i as int]);
            }
            let ghost before = kept@;
            proof {
                lemma_put_label_sorted(label_views(before), given[i as int]);
                assert(keys_of(before) =~= label_keys(label_views(before)));
            }
            upsert(&mut kept, (labels[i].0.clone(), labels[i].1.clone()));
            proof {
                let k = key_rank(label_views(before), given[i as int].0);
                if k < before.len() && before[k].0@ == given[i as int].0 {
                    assert(label_views(kept@) =~= label_views(before).update(k, given[i as int]));
                } else {
                    assert(label_views(kept@) =~= label_views(before).insert(k, given[i as int]));
                }
            }
            i = i + 1;
        }
        proof {
            assert(given.take(i as int) =~= given);
        }
        Metadata { name, labels: kept, expires, id }
    }

    /// The labels, in the order of their keys.
    pub fn labels(&self) -> (res: &Vec<(String, String)>)
        ensures
            label_views(res@) == self@.labels,
            sorted_by_key(self@.labels),
    {
        proof {
            use_type_invariant(self);
        }
        &self.labels
    }

    /// The name under which the directory lists the node.
    pub fn name(&self) -> (res: &String)
        ensures
            res@ == self@.name,
    {
        &self.name
    }

    /// When the entry of the node expires, as the directory writes it.
    pub fn expires(&self) -> (res: &String)
        ensures
            res@ == self@.expires,
    {
        &self.expires
    }

    /// The number of the entry.
    pub fn id(&self) -> (res: i64)
        ensures
            res == self@.id,
    {
        self.id
    }
}

impl Clone for Metadata {
    fn clone(&self) -> (res: Metadata)
        ensures
            res@ == self@,
    {
        proof {
            use_type_invariant(self);
        }
        let mut labels: Vec<(String, String)> = Vec::new();
        let mut i: usize = 0;
        while i < self.labels.len()
            invariant
                i <= self.labels.len(),
                labels.len() == i,
                forall|j: int|
                    0 <= j < i ==> (#[trigger] labels[j]).0@ == self.labels[j].0@ && labels[j].1@
                        == self.labels[j].1@,
            decreases self.labels.len() - i,
        {
            labels.push((self.labels[i].0.clone(), self.labels[i].1.clone()));
            i = i + 1;
        }
        assert(label_views(labels@) =~= label_views(self.labels@));
        Metadata { name: self.name.clone(), labels, expires: self.expires.clone(), id: self.id }
    }
}

/// Where a node is reached.
#[derive(Debug)]
pub struct Spec {
    pub hostname: String,
}

impl Clone for Spec {
    fn clone(&self) -> (res: Spec)
        ensures
            res.hostname@ == self.hostname@,
    {
        Spec { hostname: self.hostname.clone() }
    }
}

/// A node of the directory.
#[derive(Debug)]
pub struct Node {
    pub metadata: Metadata,
    pub spec: Spec,
}

/// What a `Node` holds, with every text as its sequence of characters.
pub struct NodeView {
    pub metadata: MetadataView,
    pub hostname: Seq<char>,
}

impl View for Node {
    type V = NodeView;

    open spec fn view(&self) -> NodeView {
        NodeView { metadata: self.metadata@, hostname: self.spec.hostname@ }
    }
}

impl Clone for Node {
    fn clone(&self) -> (res: Node)
        ensures
            res@ == self@,
    {
        Node { metadata: self.metadata.clone(), spec: self.spec.clone() }
    }
}

/// The views of a sequence of nodes.
pub open spec fn node_views(s: Seq<Node>) -> Seq<NodeView> {
    Seq::new(s.len(), |i: int| s[i]@)
}

/// How many nodes stand at the front of `sorted` with a host name that is
/// not before `host`.
pub open spec fn slot(sorted: Seq<NodeView>, host: Seq<char>) -> int
    decreases sorted.len(),
{
    if sorted.len() == 0 || lex_lt(sorted[0].hostname, host) {
        0
    } else {
        1 + slot(sorted.drop_first(), host)
    }
}

/// The nodes in the descending order of their host names. Nodes with one
/// host name keep the order in which they were given.
pub open spec fn sort_desc(s: Seq<NodeView>) -> Seq<NodeView>
    decreases s.len(),
{
    if s.len() == 0 {
        Seq::empty()
    } else {
        let front = sort_desc(s.drop_last());
        front.insert(slot(front, s.last().hostname), s.last())
    }
}

/// Whether no node stands before a node of a later host name.
pub open spec fn descending(s: Seq<NodeView>) -> bool {
    forall|i: int, j: int|
        0 <= i < j < s.len() ==> !lex_lt(#[trigger] s[i].hostname, #[trigger] s[j].hostname)
}

/// `slot` is the position before which no host name is before `host` and
/// at which the host name is.
pub proof fn lemma_slot(sorted: Seq<NodeView>, host: Seq<char>, k: int)
    requires
        0 <= k <= sorted.len(),
        forall|j: int| 0 <= j < k ==> !lex_lt(#[trigger] sorted[j].hostname, host),
        k < sorted.len() ==> lex_lt(sorted[k].hostname, host),
    ensures
        slot(sorted, host) == k,
    decreases k,
{
    if k > 0 {
        let t = sorted.drop_first();
        assert(!lex_lt(sorted[0].hostname, host));
        assert forall|j: int| 0 <= j < k - 1 implies !lex_lt(#[trigger] t[j].hostname, host) by {
            assert(t[j] == sorted[j + 1]);
        }
        if k < sorted.len() {
            assert(t[k - 1] == sorted[k]);
        }
        lemma_slot(t, host, k - 1);
    }
}

/// Among nodes in descending order the host names before `slot` are not
/// before `host`, and the host names from there on are.
pub proof fn lemma_slot_splits(sorted: Seq<NodeView>, host: Seq<char>)
    requires
        descending(sorted),
    ensures
        0 <= slot(sorted, host) <= sorted.len(),
        forall|j: int| 0 <= j < slot(sorted, host) ==> !lex_lt(#[trigger] sorted[j].hostname, host),
        forall|j: int|
            slot(sorted, host) <= j < sorted.len() ==> lex_lt(#[trigger] sorted[j].hostname, host),
    decreases sorted.len(),
{
    if sorted.len() > 0 {
        let t = sorted.drop_first();
        assert forall|i: int, j: int| 0 <= i < j < t.len() implies !lex_lt(
            #[trigger] t[i].hostname,
            #[trigger] t[j].hostname,
        ) by {
            assert(t[i] == sorted[i + 1] && t[j] == sorted[j + 1]);
        }
        lemma_slot_splits(t, host);
        if !lex_lt(sorted[0].hostname, host) {
            assert forall|j: int| 0 <= j < slot(sorted, host) implies !lex_lt(
                #[trigger] sorted[j].hostname,
                host,
            ) by {
                if j > 0 {
                    assert(t[j - 1] == sorted[j]);
                }
            }
            assert forall|j: int| slot(sorted, host) <= j < sorted.len() implies lex_lt(
                #[trigger] sorted[j].hostname,
                host,
            ) by {
                assert(t[j - 1] == sorted[j]);
            }
        } else {
            assert forall|j: int| 0 <= j < sorted.len() implies lex_lt(
                #[trigger] sorted[j].hostname,
                host,
            ) by {
                if j > 0 {
                    assert(!lex_lt(sorted[0].hostname, sorted[j].hostname));
                    lemma_lex_total(sorted[0].hostname, sorted[j].hostname);
                    if lex_lt(sorted[j].hostname, sorted[0].hostname) {
                        lemma_lex_transitive(sorted[j].hostname, sorted[0].hostname, host);
                    }
                }
            }
        }
    }
}

/// The sorted nodes stand in descending order, and they are the nodes that
/// were given: each as often as it was given.
pub proof fn lemma_sort_desc(s: Seq<NodeView>)
    ensures
        descending(sort_desc(s)),
        sort_desc(s).len() == s.len(),
        sort_desc(s).to_multiset() == s.to_multiset(),
    decreases s.len(),
{
    broadcast use vstd::seq_lib::group_to_multiset_ensures;

    if s.len() > 0 {
        let front = sort_desc(s.drop_last());
        let x = s.last();
        lemma_sort_desc(s.drop_last());
        lemma_slot_splits(front, x.hostname);
        let k = slot(front, x.hostname);
        let r = sort_desc(s);
        assert forall|i: int, j: int| 0 <= i < j < r.len() implies !lex_lt(
            #[trigger] r[i].hostname,
            #[trigger] r[j].hostname,
        ) by {
            if j < k {
                assert(r[i] == front[i] && r[j] == front[j]);
            } else if j == k {
                assert(r[i] == front[i]);
            } else if i == k {
                assert(r[j] == front[j - 1]);
                lemma_lex_asymmetric(front[j - 1].hostname, x.hostname);
            } else if i < k {
                assert(r[i] == front[i] && r[j] == front[j - 1]);
            } else {
                assert(r[i] == front[i - 1] && r[j] == front[j - 1]);
            }
        }
        assert(s =~= s.drop_last().push(x));
        vstd::seq_lib::to_multiset_insert(front, k, x);
        assert(r.to_multiset() =~= front.to_multiset().insert(x));
        assert(s.to_multiset() =~= s.drop_last().to_multiset().insert(x));
    } else {
        assert(sort_desc(s) =~= s);
    }
}

/// The number of bytes of the longest host name.
pub open spec fn longest(nodes: Seq<NodeView>) -> nat
    decreases nodes.len(),
{
    if nodes.len() == 0 {
        0
    } else {
        let before = longest(nodes.drop_last());
        let here = byte_len(nodes.last().hostname);
        if here > before {
            here
        } else {
            before
        }
    }
}

/// The space between the start of a host name and its labels, beyond the
/// longest host name.
pub const PADDING: usize = 15;

/// The width of the column of host names.
pub open spec fn column_width(nodes: Seq<NodeView>) -> nat {
    longest(nodes) + PADDING as nat
}

/// No host name is longer than the longest.
pub proof fn lemma_longest_covers(nodes: Seq<NodeView>, i: int)
    requires
        0 <= i < nodes.len(),
    ensures
        byte_len(nodes[i].hostname) <= longest(nodes),
    decreases nodes.len(),
{
    if i < nodes.len() - 1 {
        assert(nodes.drop_last()[i] == nodes[i]);
        lemma_longest_covers(nodes.drop_last(), i);
    }
}

/// The labels that are shown where `whitelist` is what the user asked for:
/// all of them where it is empty, else those whose key it holds.
pub open spec fn is_shown(key: Seq<char>, whitelist: Seq<Seq<char>>) -> bool {
    whitelist.len() == 0 || whitelist.contains(key)
}

/// The labels that are shown, each as `key:value`, in their order.
pub open spec fn shown_labels(labels: Seq<LabelView>, whitelist: Seq<Seq<char>>) -> Seq<Seq<char>>
    decreases labels.len(),
{
    if labels.len() == 0 {
        Seq::empty()
    } else if is_shown(labels.last().0, whitelist) {
        shown_labels(labels.drop_last(), whitelist).push(labels.last().0 + ":"@ + labels.last().1)
    } else {
        shown_labels(labels.drop_last(), whitelist)
    }
}

/// The labels of a line: those that are shown, with a space between each two.
pub open spec fn label_fragment(labels: Seq<LabelView>, whitelist: Seq<Seq<char>>) -> Seq<char> {
    joined(shown_labels(labels, whitelist), " "@)
}

/// The spaces that fill a text of `len` characters up to `width`.
pub open spec fn fill(width: nat, len: nat) -> Seq<char> {
    if width >= len {
        spaces((width - len) as nat)
    } else {
        Seq::empty()
    }
}

/// The line of a node: its host name, filled up to `width` with spaces, a
/// space, and its labels.
pub open spec fn display_line(node: NodeView, width: nat, whitelist: Seq<Seq<char>>) -> Seq<char> {
    node.hostname + fill(width, node.hostname.len()) + " "@ + label_fragment(
        node.metadata.labels,
        whitelist,
    )
}

/// The labels that the user asked for, none where nothing was asked.
pub open spec fn wanted(label_whitelist: Option<Vec<String>>) -> Seq<Seq<char>> {
    match label_whitelist {
        Some(keys) => keys.deep_view(),
        None => Seq::empty(),
    }
}

/// The lines of the listing: one for each node, in the descending order of
/// the host names, the host names in a column that is as wide as the
/// longest of them and fifteen more.
pub open spec fn spec_format(nodes: Seq<NodeView>, whitelist: Seq<Seq<char>>) -> Seq<Seq<char>> {
    let sorted = sort_desc(nodes);
    Seq::new(sorted.len(), |i: int| display_line(sorted[i], column_width(nodes), whitelist))
}

/// The listing gives the host names back: where no host name holds a
/// character that separates words, the first word of each line is the host
/// name of the node at that place of the descending order, and these nodes
/// are the nodes that were given.
pub proof fn lemma_listing_recovers_hosts(nodes: Seq<NodeView>, whitelist: Seq<Seq<char>>)
    requires
        forall|i: int| 0 <= i < nodes.len() ==> is_word(#[trigger] nodes[i].hostname),
    ensures
        spec_format(nodes, whitelist).len() == nodes.len(),
        forall|i: int|
            0 <= i < nodes.len() ==> first_word(#[trigger] spec_format(nodes, whitelist)[i])
                == sort_desc(nodes)[i].hostname,
        descending(sort_desc(nodes)),
        sort_desc(nodes).to_multiset() == nodes.to_multiset(),
{
    broadcast use vstd::seq_lib::group_to_multiset_ensures;

    lemma_sort_desc(nodes);
    let sorted = sort_desc(nodes);
    let lines = spec_format(nodes, whitelist);
    let width = column_width(nodes);
    assert forall|i: int| 0 <= i < nodes.len() implies first_word(#[trigger] lines[i])
        == sorted[i].hostname by {
        let node = sorted[i];
        assert(sorted.to_multiset().count(node) > 0);
        assert(nodes.to_multiset().count(node) > 0);
        assert(nodes.contains(node));
        let at = choose|at: int| 0 <= at < nodes.len() && nodes[at] == node;
        assert(is_word(nodes[at].hostname));
        let rest = fill(width, node.hostname.len()) + " "@ + label_fragment(
            node.metadata.labels,
            whitelist,
        );
        reveal_strlit(" ");
        assert(" "@[0] == ' ');
        assert(rest[0] == ' ');
        assert(lines[i] =~= node.hostname + rest);
        lemma_first_word_of_padded(node.hostname, rest);
    }
}

/// The host names of the nodes, character by character.
fn host_keys(nodes: &[Node]) -> (keys: Vec<Vec<char>>)
    ensures
        keys.len() == nodes.len(),
        forall|i: int| 0 <= i < nodes.len() ==> (#[trigger] keys[i])@ == nodes[i].spec.hostname@,
{
    let mut keys: Vec<Vec<char>> = Vec::new();
    let mut i: usize = 0;
    while i < nodes.len()
        invariant
            i <= nodes.len(),
            keys.len() == i,
            forall|j: int| 0 <= j < i ==> (#[trigger] keys[j])@ == nodes[j].spec.hostname@,
        decreases nodes.len() - i,
    {
        keys.push(to_chars(nodes[i].spec.hostname.as_str()));
        i = i + 1;
    }
    keys
}

/// The nodes that `order` names, in its order.
pub open spec fn picked(nodes: Seq<NodeView>, order: Seq<usize>) -> Seq<NodeView> {
    Seq::new(order.len(), |k: int| nodes[order[k] as int])
}

/// The places of the nodes in the descending order of their host names.
pub fn descending_order(nodes: &[Node]) -> (order: Vec<usize>)
    ensures
        order.len() == nodes.len(),
        forall|k: int| 0 <= k < order.len() ==> (#[trigger] order[k]) < nodes.len(),
        picked(node_views(nodes@), order@) == sort_desc(node_views(nodes@)),
{
    let ghost v = node_views(nodes@);
    let keys = host_keys(nodes);
    let mut order: Vec<usize> = Vec::new();
    let mut i: usize = 0;
    assert(picked(v, order@) =~= sort_desc(v.take(0)));
    while i < nodes.len()
        invariant
            i <= nodes.len(),
            v == node_views(nodes@),
            keys.len() == nodes.len(),
            forall|j: int| 0 <= j < nodes.len() ==> (#[trigger] keys[j])@ == v[j].hostname,
            order.len() == i,
            forall|k: int| 0 <= k < order.len() ==> (#[trigger] order[k]) < i,
            picked(v, order@) == sort_desc(v.take(i as int)),
        decreases nodes.len() - i,
    {
        let ghost front = picked(v, order@);
        let ghost host = v[i as int].hostname;
        proof {
            assert(v.take(i + 1).drop_last() =~= v.take(i as int));
            assert(v.take(i + 1).last() == v[i as int]);
        }
        let mut k: usize = 0;
        while k < order.len() && !chars_lt(&keys[order[k]], &keys[i])
            invariant
                k <= order.len(),
                i < nodes.len(),
                order.len() == i,
                keys.len() == nodes.len(),
                forall|j: int| 0 <= j < nodes.len() ==> (#[trigger] keys[j])@ == v[j].hostname,
                forall|j: int| 0 <= j < order.len() ==> (#[trigger] order[j]) < i,
                front == picked(v, order@),
                host == v[i as int].hostname,
                forall|j: int| 0 <= j < k ==> !lex_lt(#[trigger] front[j].hostname, host),
            decreases order.len() - k,
        {
            k = k + 1;
        }
        proof {
            if k < order.len() {
                assert(front[k as int] == v[order[k as int] as int]);
            }
            lemma_slot(front, host, k as int);
        }
        order.insert(k, i);
        proof {
            assert(picked(v, order@) =~= front.insert(k as int, v[i as int]));
        }
        i = i + 1;
    }
    proof {
        assert(v.take(i as int) =~= v);
    }
    order
}

/// The number of bytes of the longest host name.
pub fn longest_hostname(nodes: &[Node]) -> (res: usize)
    ensures
        res == longest(node_views(nodes@)),
{
    let ghost v = node_views(nodes@);
    let mut res: usize = 0;
    let mut i: usize = 0;
    while i < nodes.len()
        invariant
            i <= nodes.len(),
            v == node_views(nodes@),
            res == longest(v.take(i as int)),
        decreases nodes.len() - i,
    {
        proof {
            assert(v.take(i + 1).drop_last() =~= v.take(i as int));
            assert(v.take(i + 1).last() == v[i as int]);
        }
        let here = byte_length(nodes[i].spec.hostname.as_str());
        if here > res {
            res = here;
        }
        i = i + 1;
    }
    proof {
        assert(v.take(i as int) =~= v);
    }
    res
}

/// Whether the label with the key `key` is shown.
fn shows(key: &String, whitelist: &Option<Vec<String>>) -> (res: bool)
    ensures
        res == is_shown(key@, wanted(*whitelist)),
{
    match whitelist {
        None => true,
        Some(keys) => {
            if keys.len() == 0 {
                return true;
            }
            let ghost all = keys.deep_view();
            let mut i: usize = 0;
            while i < keys.len()
                invariant
                    i <= keys.len(),
                    all == keys.deep_view(),
                    all == wanted(*whitelist),
                    forall|j: int| 0 <= j < i ==> all[j] != key@,
                decreases keys.len() - i,
            {
                if keys[i] == *key {
                    assert(all[i as int] == key@);
                    return true;
                }
                i = i + 1;
            }
            false
        },
    }
}

/// The labels of a line: those that are shown, each as `key:value`, with a
/// space between each two.
pub fn labels_text(labels: &Vec<(String, String)>, whitelist: &Option<Vec<String>>) -> (res:
    String)
    ensures
        res@ == label_fragment(label_views(labels@), wanted(*whitelist)),
{
    let ghost l = label_views(labels@);
    let ghost w = wanted(*whitelist);
    let mut parts: Vec<String> = Vec::new();
    let mut i: usize = 0;
    assert(parts.deep_view() =~= shown_labels(l.take(0), w));
    while i < labels.len()
        invariant
            i <= labels.len(),
            l == label_views(labels@),
            w == wanted(*whitelist),
            parts.deep_view() == shown_labels(l.take(i as int), w),
        decreases labels.len() - i,
    {
        proof {
            assert(l.take(i + 1).drop_last() =~= l.take(i as int));
            assert(l.take(i + 1).last() == l[i as int]);
        }
        if shows(&labels[i].0, whitelist) {
            let ghost before = parts.deep_view();
            let mut part = labels[i].0.clone();
            part.append(":");
            part.append(labels[i].1.as_str());
            parts.push(part);
            assert(parts.deep_view() =~= before.push(l[i as int].0 + ":"@ + l[i as int].1));
        }
        i = i + 1;
    }
    proof {
        assert(l.take(i as int) =~= l);
    }
    join(&parts, " ")
}

/// The lines of the listing of `nodes`: one for each node, in the
/// descending order of the host names. A line holds the host name, spaces
/// up to the width of the column, a space, and the labels that
/// `label_whitelist` lets through, in the order of their keys.
pub fn format_for_display(nodes: &[Node], label_whitelist: &Option<Vec<String>>) -> (lines: Vec<
    String,
>)
    ensures
        lines.deep_view() == spec_format(node_views(nodes@), wanted(*label_whitelist)),
{
    let ghost v = node_views(nodes@);
    let ghost w = wanted(*label_whitelist);
    let ghost sorted = sort_desc(v);
    let order = descending_order(nodes);
    let widest = longest_hostname(nodes);
    let mut lines: Vec<String> = Vec::new();
    let mut k: usize = 0;
    while k < order.len()
        invariant
            k <= order.len(),
            order.len() == nodes.len(),
            v == node_views(nodes@),
            w == wanted(*label_whitelist),
            sorted == sort_desc(v),
            sorted == picked(v, order@),
            widest == longest(v),
            forall|j: int| 0 <= j < order.len() ==> (#[trigger] order[j]) < nodes.len(),
            lines.len() == k,
            forall|j: int|
                0 <= j < k ==> (#[trigger] lines[j])@ == display_line(sorted[j], column_width(v), w),
        decreases order.len() - k,
    {
        let node = &nodes[order[k]];
        let host = node.spec.hostname.as_str();
        let length = host.unicode_len();
        proof {
            assert(sorted[k as int] == v[order[k as int] as int]);
            lemma_longest_covers(v, order[k as int] as int);
            lemma_byte_len_covers(host@);
            lemma_spaces_add((widest - length) as nat, PADDING as nat);
        }
        let mut line = String::from_str(host);
        line.append(blank(widest - length).as_str());
        line.append(blank(PADDING).as_str());
        line.append(" ");
        line.append(labels_text(node.metadata.labels(), label_whitelist).as_str());
        proof {
            assert(line@ =~= display_line(sorted[k as int], column_width(v), w));
        }
        lines.push(line);
        k = k + 1;
    }
    proof {
        assert(lines.deep_view() =~= spec_format(v, w));
    }
    lines
}

/// What is handed to the picker.
pub trait SkimString {
    /// The listing as one text.
    fn to_skim_string(self, label_whitelist: Option<Vec<String>>) -> String;
}

impl SkimString for Vec<Node> {
    /// The lines of the listing, with a line feed between each two.
    fn to_skim_string(self, label_whitelist: Option<Vec<String>>) -> (res: String)
        ensures
            res@ == joined(spec_format(node_views(self@), wanted(label_whitelist)), "\n"@),
    {
        let lines = format_for_display(self.as_slice(), &label_whitelist);
        join(&lines, "\n")
    }
}

} // verus!
