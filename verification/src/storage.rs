//! The initial key-value storage of a contract: an ordered mapping from byte
//! strings to byte strings.

use crate::codec::{encoded_bytes, write_bytes, write_u32};
use vstd::bytes::*;
use vstd::prelude::*;

verus! {

/// Lexicographic order on byte strings: `a` comes strictly before `b`.
pub open spec fn bytes_before(a: Seq<u8>, b: Seq<u8>) -> bool {
    exists|k: int| #[trigger] differs_at(a, b, k)
}

/// `a` and `b` agree on their first `k` bytes, and there `a` ends or holds the
/// smaller byte.
pub open spec fn differs_at(a: Seq<u8>, b: Seq<u8>, k: int) -> bool {
    &&& 0 <= k <= a.len()
    &&& k < b.len()
    &&& forall|i: int| 0 <= i < k ==> a[i] == b[i]
    &&& (k == a.len() || a[k] < b[k])
}

/// The order is irreflexive.
pub proof fn lemma_bytes_before_irreflexive(a: Seq<u8>)
    ensures
        !bytes_before(a, a),
{
    if bytes_before(a, a) {
        let k = choose|k: int| #[trigger] differs_at(a, a, k);
        assert(differs_at(a, a, k));
    }
}

/// The order is transitive.
pub proof fn lemma_bytes_before_transitive(a: Seq<u8>, b: Seq<u8>, c: Seq<u8>)
    requires
        bytes_before(a, b),
        bytes_before(b, c),
    ensures
        bytes_before(a, c),
{
    let k1 = choose|k: int| #[trigger] differs_at(a, b, k);
    let k2 = choose|k: int| #[trigger] differs_at(b, c, k);
    let k = if k1 <= k2 { k1 } else { k2 };
    assert(differs_at(a, c, k));
}

/// Any two distinct byte strings are ordered one way or the other.
pub proof fn lemma_bytes_before_total(a: Seq<u8>, b: Seq<u8>)
    ensures
        a == b || bytes_before(a, b) || bytes_before(b, a),
{
    if a != b && !bytes_before(a, b) && !bytes_before(b, a) {
        lemma_common_prefix(a, b, 0);
    }
}

proof fn lemma_common_prefix(a: Seq<u8>, b: Seq<u8>, k: int)
    requires
        0 <= k <= a.len(),
        k <= b.len(),
        forall|i: int| 0 <= i < k ==> a[i] == b[i],
        !bytes_before(a, b),
        !bytes_before(b, a),
    ensures
        a == b,
    decreases a.len() - k,
{
    if k == a.len() {
        if k < b.len() {
            assert(differs_at(a, b, k));
        }
        assert(a =~= b);
    } else if k == b.len() {
        assert(differs_at(b, a, k));
    } else {
        if a[k] < b[k] {
            assert(differs_at(a, b, k));
        } else if b[k] < a[k] {
            assert(differs_at(b, a, k));
        } else {
            lemma_common_prefix(a, b, k + 1);
        }
    }
}

/// How a key stands to another in the order of keys.
#[derive(Clone, Copy, Debug, PartialEq, Eq, Structural)]
pub enum KeyOrder {
    Before,
    Same,
    After,
}

/// Orders two byte strings lexicographically.
pub fn key_order(a: &[u8], b: &[u8]) -> (r: KeyOrder)
    ensures
        r == KeyOrder::Before <==> bytes_before(a@, b@),
        r == KeyOrder::Same <==> a@ == b@,
        r == KeyOrder::After <==> bytes_before(b@, a@),
{
    let mut i: usize = 0;
    proof {
        lemma_bytes_before_irreflexive(a@);
        if bytes_before(a@, b@) && bytes_before(b@, a@) {
            lemma_bytes_before_transitive(a@, b@, a@);
        }
    }
    while i < a.len() && i < b.len()
        invariant
            i <= a.len(),
            i <= b.len(),
            forall|j: int| 0 <= j < i ==> a@[j] == b@[j],
            !bytes_before(a@, a@),
            !(bytes_before(a@, b@) && bytes_before(b@, a@)),
        decreases a.len() - i,
    {
        if a[i] < b[i] {
            assert(differs_at(a@, b@, i as int));
            return KeyOrder::Before;
        }
        if b[i] < a[i] {
            assert(differs_at(b@, a@, i as int));
            return KeyOrder::After;
        }
        i = i + 1;
    }
    if i < b.len() {
        assert(differs_at(a@, b@, i as int));
        KeyOrder::Before
    } else if i < a.len() {
        assert(differs_at(b@, a@, i as int));
        KeyOrder::After
    } else {
        assert(a@ =~= b@);
        KeyOrder::Same
    }
}

/// An entry of the storage as a pair of byte strings.
pub type EntryView = (Seq<u8>, Seq<u8>);

/// The keys of `entries` ascend strictly.
pub open spec fn is_ordered<V>(entries: Seq<(Seq<u8>, V)>) -> bool {
    forall|i: int, j: int|
        0 <= i < j < entries.len() ==> bytes_before(#[trigger] entries[i].0, #[trigger] entries[j].0)
}

/// The number of entries, and the length of every key and value, fit the
/// 32-bit lengths of the binary encoding.
pub open spec fn is_encodable(entries: Seq<EntryView>) -> bool {
    &&& entries.len() <= u32::MAX
    &&& forall|i: int|
        0 <= i < entries.len() ==> (#[trigger] entries[i]).0.len() <= u32::MAX && entries[i].1.len()
            <= u32::MAX
}

/// The index of the first entry whose key does not come before `key`, or the
/// number of entries if there is none.
pub open spec fn insertion_point<V>(entries: Seq<(Seq<u8>, V)>, key: Seq<u8>) -> int
    decreases entries.len(),
{
    if entries.len() == 0 {
        0
    } else if bytes_before(entries.last().0, key) {
        entries.len() as int
    } else {
        insertion_point(entries.drop_last(), key)
    }
}

/// `entries` with `key` bound to `value`: the entry for `key` is replaced if
/// there is one, and otherwise a new entry is placed where the order of keys
/// puts it.
pub open spec fn with_entry<V>(entries: Seq<(Seq<u8>, V)>, key: Seq<u8>, value: V) -> Seq<
    (Seq<u8>, V),
> {
    let at = insertion_point(entries, key);
    if at < entries.len() && entries[at].0 == key {
        entries.update(at, (key, value))
    } else {
        entries.insert(at, (key, value))
    }
}

/// The mapping that ordered entries stand for.
pub open spec fn entries_map<V>(entries: Seq<(Seq<u8>, V)>) -> Map<Seq<u8>, V> {
    Map::new(
        |key: Seq<u8>| exists|i: int| 0 <= i < entries.len() && #[trigger] entries[i].0 == key,
        |key: Seq<u8>|
            entries[choose|i: int| 0 <= i < entries.len() && #[trigger] entries[i].0 == key].1,
    )
}

/// Storage charged for `entries`: for each one its key, its value and the
/// fixed per-record overhead.
pub open spec fn entries_usage(entries: Seq<EntryView>, per_record: int) -> int
    decreases entries.len(),
{
    if entries.len() == 0 {
        0
    } else {
        entries_usage(entries.drop_last(), per_record) + entries.last().0.len()
            + entries.last().1.len() + per_record
    }
}

/// Encoding of the entries one after another, each as its encoded key
/// followed by its encoded value.
pub open spec fn encoded_entries(entries: Seq<EntryView>) -> Seq<u8>
    decreases entries.len(),
{
    if entries.len() == 0 {
        Seq::empty()
    } else {
        encoded_entries(entries.drop_last()) + encoded_bytes(entries.last().0) + encoded_bytes(
            entries.last().1,
        )
    }
}

/// Encoding of a storage: the number of entries as a 32-bit integer, then the
/// entries in the order of their keys.
pub open spec fn encoded_storage(entries: Seq<EntryView>) -> Seq<u8> {
    spec_u32_to_le_bytes(entries.len() as u32) + encoded_entries(entries)
}

/// In ordered entries, the insertion point of `key` is the one index at
/// which the keys stop coming before `key`.
pub proof fn lemma_insertion_point<V>(entries: Seq<(Seq<u8>, V)>, key: Seq<u8>, at: int)
    requires
        is_ordered(entries),
        0 <= at <= entries.len(),
        forall|i: int| 0 <= i < at ==> bytes_before(#[trigger] entries[i].0, key),
        at < entries.len() ==> !bytes_before(entries[at].0, key),
    ensures
        insertion_point(entries, key) == at,
    decreases entries.len(),
{
    if entries.len() > 0 {
        let last = entries.len() - 1;
        if bytes_before(entries.last().0, key) {
            if at < entries.len() {
                if at < last {
                    assert(bytes_before(entries[at].0, entries[last].0));
                    lemma_bytes_before_transitive(entries[at].0, entries[last].0, key);
                }
            }
        } else {
            let init = entries.drop_last();
            assert forall|i: int, j: int| 0 <= i < j < init.len() implies bytes_before(
                #[trigger] init[i].0,
                #[trigger] init[j].0,
            ) by {
                assert(init[i] == entries[i] && init[j] == entries[j]);
            }
            assert forall|i: int| 0 <= i < at implies bytes_before(#[trigger] init[i].0, key) by {
                assert(init[i] == entries[i]);
            }
            lemma_insertion_point(init, key, at);
        }
    }
}

/// Binding a key in ordered entries keeps them ordered, and changes the
/// mapping they stand for at that key alone.
pub proof fn lemma_with_entry<V>(entries: Seq<(Seq<u8>, V)>, key: Seq<u8>, value: V)
    requires
        is_ordered(entries),
    ensures
        is_ordered(with_entry(entries, key, value)),
        entries_map(with_entry(entries, key, value)) == entries_map(entries).insert(key, value),
{
    let at = insertion_point(entries, key);
    let after = with_entry(entries, key, value);
    lemma_insertion_point_splits(entries, key);
    let replaced = at < entries.len() && entries[at].0 == key;
    assert forall|i: int, j: int| 0 <= i < j < after.len() implies bytes_before(
        #[trigger] after[i].0,
        #[trigger] after[j].0,
    ) by {
        if replaced {
            assert(after[i].0 == entries[i].0 && after[j].0 == entries[j].0);
        } else {
            let oi = if i < at { i } else { i - 1 };
            let oj = if j < at { j } else { j - 1 };
            if i == at {
                assert(after[j] == entries[oj]);
                lemma_bytes_before_total(entries[oj].0, key);
            } else if j == at {
                assert(after[i] == entries[oi]);
            } else {
                assert(after[i] == entries[oi] && after[j] == entries[oj]);
            }
        }
    }
    let lhs = entries_map(after);
    let rhs = entries_map(entries).insert(key, value);
    lemma_entries_map(entries);
    lemma_entries_map(after);
    assert(after[at] == (key, value));
    assert forall|k: Seq<u8>| lhs.dom().contains(k) == rhs.dom().contains(k) by {
        if lhs.dom().contains(k) {
            let i = choose|i: int| 0 <= i < after.len() && #[trigger] after[i].0 == k;
            if i != at {
                let oi = if replaced || i < at { i } else { i - 1 };
                assert(entries[oi] == after[i]);
                assert(entries[oi].0 == k);
                assert(entries_map(entries).dom().contains(k));
            }
            assert(rhs.dom().contains(k));
        }
        if rhs.dom().contains(k) {
            if k == key {
                assert(after[at].0 == k);
            } else {
                assert(entries_map(entries).dom().contains(k));
                let i = choose|i: int| 0 <= i < entries.len() && #[trigger] entries[i].0 == k;
                let ni = if replaced || i < at { i } else { i + 1 };
                assert(after[ni] == entries[i]);
                assert(after[ni].0 == k);
            }
            assert(lhs.dom().contains(k));
        }
    }
    assert forall|k: Seq<u8>| lhs.dom().contains(k) implies lhs[k] == rhs[k] by {
        let i = choose|i: int| 0 <= i < after.len() && #[trigger] after[i].0 == k;
        if i != at {
            let oi = if replaced || i < at { i } else { i - 1 };
            assert(entries[oi] == after[i]);
            assert(entries[oi].0 == k);
            if k == key {
                if replaced {
                    lemma_bytes_before_irreflexive(key);
                    if oi < at {
                        assert(bytes_before(entries[oi].0, entries[at].0));
                    } else {
                        assert(bytes_before(entries[at].0, entries[oi].0));
                    }
                } else {
                    lemma_bytes_before_irreflexive(key);
                    if oi >= at {
                        lemma_bytes_before_total(entries[oi].0, key);
                        if oi > at {
                            assert(bytes_before(entries[at].0, entries[oi].0));
                        }
                    }
                }
            }
        }
    }
    assert(lhs =~= rhs);
}

/// The keys before the insertion point come before `key`; the keys from it
/// on do not.
pub proof fn lemma_insertion_point_splits<V>(entries: Seq<(Seq<u8>, V)>, key: Seq<u8>)
    requires
        is_ordered(entries),
    ensures
        0 <= insertion_point(entries, key) <= entries.len(),
        forall|i: int|
            0 <= i < insertion_point(entries, key) ==> bytes_before(#[trigger] entries[i].0, key),
        forall|i: int|
            insertion_point(entries, key) <= i < entries.len() ==> !bytes_before(
                #[trigger] entries[i].0,
                key,
            ),
    decreases entries.len(),
{
    if entries.len() > 0 {
        let last = entries.len() - 1;
        if bytes_before(entries.last().0, key) {
            assert forall|i: int| 0 <= i < entries.len() implies bytes_before(
                #[trigger] entries[i].0,
                key,
            ) by {
                if i < last {
                    assert(bytes_before(entries[i].0, entries[last].0));
                    lemma_bytes_before_transitive(entries[i].0, entries[last].0, key);
                }
            }
        } else {
            let init = entries.drop_last();
            assert forall|i: int, j: int| 0 <= i < j < init.len() implies bytes_before(
                #[trigger] init[i].0,
                #[trigger] init[j].0,
            ) by {
                assert(init[i] == entries[i] && init[j] == entries[j]);
            }
            lemma_insertion_point_splits(init, key);
            assert forall|i: int| 0 <= i < insertion_point(entries, key) implies bytes_before(
                #[trigger] entries[i].0,
                key,
            ) by {
                assert(init[i] == entries[i]);
            }
            assert forall|i: int|
                insertion_point(entries, key) <= i < entries.len() implies !bytes_before(
                #[trigger] entries[i].0,
                key,
            ) by {
                if i < last {
                    assert(init[i] == entries[i]);
                }
            }
        }
    }
}

/// In ordered entries every key occurs once, so the mapping holds each
/// entry's value at its key.
pub proof fn lemma_entries_map<V>(entries: Seq<(Seq<u8>, V)>)
    requires
        is_ordered(entries),
    ensures
        forall|i: int|
            0 <= i < entries.len() ==> entries_map(entries).dom().contains(
                #[trigger] entries[i].0,
            ) && entries_map(entries)[entries[i].0] == entries[i].1,
{
    assert forall|i: int| 0 <= i < entries.len() implies entries_map(entries).dom().contains(
        #[trigger] entries[i].0,
    ) && entries_map(entries)[entries[i].0] == entries[i].1 by {
        let k = entries[i].0;
        let j = choose|j: int| 0 <= j < entries.len() && #[trigger] entries[j].0 == k;
        lemma_bytes_before_irreflexive(k);
        if j < i {
            assert(bytes_before(entries[j].0, entries[i].0));
        } else if i < j {
            assert(bytes_before(entries[i].0, entries[j].0));
        }
    }
}

/// Ordered entries without their last entry stand for the mapping without
/// the last key.
pub proof fn lemma_entries_map_drop_last<V>(entries: Seq<(Seq<u8>, V)>)
    requires
        is_ordered(entries),
        entries.len() > 0,
    ensures
        is_ordered(entries.drop_last()),
        entries_map(entries.drop_last()) == entries_map(entries).remove(entries.last().0),
{
    let init = entries.drop_last();
    let last = entries.len() - 1;
    assert forall|i: int, j: int| 0 <= i < j < init.len() implies bytes_before(
        #[trigger] init[i].0,
        #[trigger] init[j].0,
    ) by {
        assert(init[i] == entries[i] && init[j] == entries[j]);
    }
    lemma_entries_map(entries);
    lemma_entries_map(init);
    let lhs = entries_map(init);
    let rhs = entries_map(entries).remove(entries.last().0);
    assert forall|k: Seq<u8>| lhs.dom().contains(k) == rhs.dom().contains(k) by {
        if lhs.dom().contains(k) {
            let i = choose|i: int| 0 <= i < init.len() && #[trigger] init[i].0 == k;
            assert(entries[i] == init[i]);
            assert(bytes_before(entries[i].0, entries[last].0));
            lemma_bytes_before_irreflexive(k);
            assert(entries_map(entries).dom().contains(entries[i].0));
        }
        if rhs.dom().contains(k) {
            let i = choose|i: int| 0 <= i < entries.len() && #[trigger] entries[i].0 == k;
            assert(init[i] == entries[i]);
            assert(init[i].0 == k);
        }
    }
    assert forall|k: Seq<u8>| lhs.dom().contains(k) implies lhs[k] == rhs[k] by {
        let i = choose|i: int| 0 <= i < init.len() && #[trigger] init[i].0 == k;
        assert(entries[i] == init[i]);
        assert(lhs[init[i].0] == init[i].1);
        assert(entries_map(entries)[entries[i].0] == entries[i].1);
    }
    assert(lhs =~= rhs);
}

/// Ordered entries are determined by the mapping that they stand for.
pub proof fn lemma_ordered_entries_canonical<V>(a: Seq<(Seq<u8>, V)>, b: Seq<(Seq<u8>, V)>)
    requires
        is_ordered(a),
        is_ordered(b),
        entries_map(a) == entries_map(b),
    ensures
        a == b,
    decreases a.len(),
{
    lemma_entries_map(a);
    lemma_entries_map(b);
    if a.len() == 0 {
        if b.len() > 0 {
            assert(entries_map(b).dom().contains(b[0].0));
            let i = choose|i: int| 0 <= i < a.len() && #[trigger] a[i].0 == b[0].0;
        }
        assert(a =~= b);
    } else if b.len() == 0 {
        assert(entries_map(a).dom().contains(a[0].0));
        let i = choose|i: int| 0 <= i < b.len() && #[trigger] b[i].0 == a[0].0;
    } else {
        let la = a.len() - 1;
        let lb = b.len() - 1;
        assert(entries_map(a).dom().contains(a[la].0));
        assert(entries_map(b).dom().contains(b[lb].0));
        let j = choose|j: int| 0 <= j < b.len() && #[trigger] b[j].0 == a[la].0;
        let i = choose|i: int| 0 <= i < a.len() && #[trigger] a[i].0 == b[lb].0;
        lemma_bytes_before_irreflexive(a[la].0);
        if j < lb {
            assert(bytes_before(b[j].0, b[lb].0));
            if i < la {
                assert(bytes_before(a[i].0, a[la].0));
                lemma_bytes_before_transitive(a[la].0, b[lb].0, a[la].0);
            }
        }
        assert(a[la].0 == b[lb].0);
        assert(entries_map(a)[a[la].0] == a[la].1);
        assert(entries_map(b)[b[lb].0] == b[lb].1);
        assert(a[la] == b[lb]);
        lemma_entries_map_drop_last(a);
        lemma_entries_map_drop_last(b);
        lemma_ordered_entries_canonical(a.drop_last(), b.drop_last());
        assert(a =~= a.drop_last().push(a[la]));
        assert(b =~= b.drop_last().push(b[lb]));
    }
}

/// Key-value storage of a contract, held in the order of its keys.
#[derive(Debug, PartialEq, Eq)]
pub struct ContractStorage {
    entries: Vec<(Vec<u8>, Vec<u8>)>,
}

impl View for ContractStorage {
    type V = Seq<EntryView>;

    closed spec fn view(&self) -> Seq<EntryView> {
        self.entries@.map_values(|e: (Vec<u8>, Vec<u8>)| (e.0@, e.1@))
    }
}

impl ContractStorage {
    #[verifier::type_invariant]
    spec fn well_formed(self) -> bool {
        is_ordered(self@) && is_encodable(self@)
    }

    /// The empty storage.
    pub fn new() -> (r: Self)
        ensures
            r@ == Seq::<EntryView>::empty(),
    {
        let r = ContractStorage { entries: Vec::new() };
        assert(r@ =~= Seq::<EntryView>::empty());
        r
    }

    /// Binds the bytes `key` to the bytes `value`, replacing what `key` was
    /// bound to before. Both are stored as they are given: a caller that
    /// holds a structured key or value passes its binary encoding.
    pub fn borsh(self, key: Vec<u8>, value: Vec<u8>) -> (r: Self)
        requires
            key@.len() <= u32::MAX,
            value@.len() <= u32::MAX,
            self@.len() < u32::MAX,
        ensures
            r@ == with_entry(self@, key@, value@),
            self@.len() <= r@.len() <= self@.len() + 1,
    {
        proof {
            use_type_invariant(&self);
            lemma_with_entry(self@, key@, value@);
        }
        let ghost before = self@;
        let mut entries = self.entries;
        let mut at: usize = 0;
        let mut found: bool = false;
        while at < entries.len()
            invariant_except_break
                !found,
            invariant
                at <= entries.len(),
                before == entries@.map_values(|e: (Vec<u8>, Vec<u8>)| (e.0@, e.1@)),
                forall|i: int| 0 <= i < at ==> bytes_before(#[trigger] before[i].0, key@),
            ensures
                at <= entries.len(),
                before == entries@.map_values(|e: (Vec<u8>, Vec<u8>)| (e.0@, e.1@)),
                forall|i: int| 0 <= i < at ==> bytes_before(#[trigger] before[i].0, key@),
                at < entries.len() ==> !bytes_before(before[at as int].0, key@),
                found == (at < entries.len() && before[at as int].0 == key@),
            decreases entries.len() - at,
        {
            let order = key_order(entries[at].0.as_slice(), key.as_slice());
            assert(before[at as int].0 == entries@[at as int].0@);
            match order {
                KeyOrder::Before => {
                    at = at + 1;
                },
                KeyOrder::Same => {
                    proof {
                        lemma_bytes_before_irreflexive(key@);
                    }
                    found = true;
                    break ;
                },
                KeyOrder::After => {
                    proof {
                        lemma_bytes_before_irreflexive(key@);
                        if bytes_before(before[at as int].0, key@) {
                            lemma_bytes_before_transitive(key@, before[at as int].0, key@);
                        }
                    }
                    break ;
                },
            }
        }
        proof {
            lemma_insertion_point(before, key@, at as int);
        }
        let ghost bound = (key@, value@);
        if found {
            entries.set(at, (key, value));
            assert(entries@.map_values(|e: (Vec<u8>, Vec<u8>)| (e.0@, e.1@)) =~= before.update(
                at as int,
                bound,
            ));
        } else {
            entries.insert(at, (key, value));
            assert(entries@.map_values(|e: (Vec<u8>, Vec<u8>)| (e.0@, e.1@)) =~= before.insert(
                at as int,
                bound,
            ));
        }
        let r = ContractStorage { entries };
        assert(r@ == with_entry(before, bound.0, bound.1));
        assert(is_encodable(r@)) by {
            assert forall|i: int| 0 <= i < r@.len() implies (#[trigger] r@[i]).0.len() <= u32::MAX
                && r@[i].1.len() <= u32::MAX by {
                if i != at {
                    let oi = if found || i < at { i } else { i - 1 };
                    assert(r@[i] == before[oi]);
                }
            }
        }
        r
    }

    /// The number of entries. Every storage holds its entries in the strict
    /// order of their keys, and can be encoded.
    pub fn len(&self) -> (n: usize)
        ensures
            n == self@.len(),
            is_ordered(self@),
            is_encodable(self@),
    {
        proof {
            use_type_invariant(self);
        }
        self.entries.len()
    }

    /// The key and the value of the entry at `index`, counted in the order
    /// of keys.
    pub fn entry(&self, index: usize) -> (r: (&Vec<u8>, &Vec<u8>))
        requires
            index < self@.len(),
        ensures
            (r.0@, r.1@) == self@[index as int],
    {
        (&self.entries[index].0, &self.entries[index].1)
    }

    /// Whether the storage holds no entry.
    pub fn is_empty(&self) -> (r: bool)
        ensures
            r == (self@.len() == 0),
    {
        self.entries.len() == 0
    }

    /// The value bound to `key`, if there is one.
    pub fn get(&self, key: &[u8]) -> (r: Option<&Vec<u8>>)
        ensures
            r is Some <==> entries_map(self@).dom().contains(key@),
            r matches Some(value) ==> value@ == entries_map(self@)[key@],
    {
        proof {
            use_type_invariant(self);
            lemma_entries_map(self@);
        }
        let mut i: usize = 0;
        while i < self.entries.len()
            invariant
                i <= self.entries.len(),
                forall|j: int| 0 <= j < i ==> (#[trigger] self@[j]).0 != key@,
                forall|j: int|
                    0 <= j < self@.len() ==> entries_map(self@).dom().contains(
                        #[trigger] self@[j].0,
                    ) && entries_map(self@)[self@[j].0] == self@[j].1,
            decreases self.entries.len() - i,
        {
            assert(self@[i as int] == (self.entries@[i as int].0@, self.entries@[i as int].1@));
            if key_order(self.entries[i].0.as_slice(), key) == KeyOrder::Same {
                assert(self@[i as int].0 == key@);
                assert(entries_map(self@).dom().contains(self@[i as int].0));
                return Some(&self.entries[i].1);
            }
            i = i + 1;
        }
        assert(!entries_map(self@).dom().contains(key@)) by {
            if entries_map(self@).dom().contains(key@) {
                let j = choose|j: int| 0 <= j < self@.len() && #[trigger] self@[j].0 == key@;
                assert(self@[j].0 != key@);
            }
        }
        None
    }

    /// Bytes of storage the entries are charged for: per entry, the length of
    /// its key and of its value and `per_record` bytes of overhead. `None`
    /// when the total does not fit in 64 bits.
    pub fn storage_usage(&self, per_record: u64) -> (r: Option<u64>)
        ensures
            r is Some <==> entries_usage(self@, per_record as int) <= u64::MAX,
            r matches Some(usage) ==> usage == entries_usage(self@, per_record as int),
    {
        let mut total: u64 = 0;
        let mut i: usize = 0;
        while i < self.entries.len()
            invariant
                i <= self.entries.len(),
                total == entries_usage(self@.take(i as int), per_record as int),
            decreases self.entries.len() - i,
        {
            let ghost next = self@.take(i as int + 1);
            proof {
                assert(next.drop_last() =~= self@.take(i as int));
                assert(next.last() == self@[i as int]);
                assert(self@[i as int] == (self.entries@[i as int].0@, self.entries@[i as int].1@));
                lemma_entries_usage_grows(next, self@, per_record as int);
            }
            let key_len: u64 = self.entries[i].0.len() as u64;
            let value_len: u64 = self.entries[i].1.len() as u64;
            let with_key = match total.checked_add(key_len) {
                Some(sum) => sum,
                None => { return None; },
            };
            let with_value = match with_key.checked_add(value_len) {
                Some(sum) => sum,
                None => { return None; },
            };
            total =
            match with_value.checked_add(per_record) {
                Some(sum) => sum,
                None => { return None; },
            };
            i = i + 1;
        }
        assert(self@.take(i as int) =~= self@);
        Some(total)
    }

    /// Appends the encoding of the storage to `out`.
    pub(crate) fn write_to(&self, out: &mut Vec<u8>)
        ensures
            final(out)@ == old(out)@ + encoded_storage(self@),
            is_ordered(self@),
            is_encodable(self@),
    {
        proof {
            use_type_invariant(self);
        }
        write_u32(out, self.entries.len() as u32);
        let mut i: usize = 0;
        while i < self.entries.len()
            invariant
                i <= self.entries.len(),
                is_encodable(self@),
                out@ == old(out)@ + spec_u32_to_le_bytes(self@.len() as u32) + encoded_entries(
                    self@.take(i as int),
                ),
            decreases self.entries.len() - i,
        {
            let ghost next = self@.take(i as int + 1);
            proof {
                assert(next.drop_last() =~= self@.take(i as int));
                assert(next.last() == self@[i as int]);
                assert(self@[i as int] == (self.entries@[i as int].0@, self.entries@[i as int].1@));
            }
            let key_written = write_bytes(out, self.entries[i].0.as_slice());
            let value_written = write_bytes(out, self.entries[i].1.as_slice());
            assert(key_written && value_written);
            assert(out@ =~= old(out)@ + spec_u32_to_le_bytes(self@.len() as u32) + encoded_entries(
                next,
            ));
            i = i + 1;
        }
        assert(self@.take(i as int) =~= self@);
        assert(out@ =~= old(out)@ + encoded_storage(self@));
    }
}

/// The charge for a prefix of the entries is at most the charge for all.
pub proof fn lemma_entries_usage_grows(prefix: Seq<EntryView>, entries: Seq<EntryView>, per_record: int)
    requires
        prefix.len() <= entries.len(),
        prefix =~= entries.take(prefix.len() as int),
        0 <= per_record,
    ensures
        0 <= entries_usage(prefix, per_record) <= entries_usage(entries, per_record),
    decreases entries.len(),
{
    if prefix.len() == entries.len() {
        assert(prefix =~= entries);
        lemma_entries_usage_nonnegative(entries, per_record);
    } else {
        assert(prefix =~= entries.drop_last().take(prefix.len() as int));
        lemma_entries_usage_grows(prefix, entries.drop_last(), per_record);
    }
}

/// The charge is never negative.
pub proof fn lemma_entries_usage_nonnegative(entries: Seq<EntryView>, per_record: int)
    requires
        0 <= per_record,
    ensures
        0 <= entries_usage(entries, per_record),
    decreases entries.len(),
{
    if entries.len() > 0 {
        lemma_entries_usage_nonnegative(entries.drop_last(), per_record);
    }
}

impl Default for ContractStorage {
    /// The empty storage, as [`ContractStorage::new`] gives it.
    fn default() -> (r: Self)
        ensures
            r@ == Seq::<EntryView>::empty(),
    {
        ContractStorage::new()
    }
}

impl Clone for ContractStorage {
    fn clone(&self) -> (r: Self)
        ensures
            r@ == self@,
    {
        proof {
            use_type_invariant(self);
        }
        let mut entries: Vec<(Vec<u8>, Vec<u8>)> = Vec::new();
        let mut i: usize = 0;
        while i < self.entries.len()
            invariant
                i <= self.entries.len(),
                entries@.map_values(|e: (Vec<u8>, Vec<u8>)| (e.0@, e.1@)) == self@.take(i as int),
            decreases self.entries.len() - i,
        {
            let key = vstd::slice::slice_to_vec(self.entries[i].0.as_slice());
            let value = vstd::slice::slice_to_vec(self.entries[i].1.as_slice());
            let ghost copied = entries@.map_values(|e: (Vec<u8>, Vec<u8>)| (e.0@, e.1@));
            entries.push((key, value));
            assert(self@[i as int] == (self.entries@[i as int].0@, self.entries@[i as int].1@));
            assert(entries@.map_values(|e: (Vec<u8>, Vec<u8>)| (e.0@, e.1@)) =~= copied.push(
                self@[i as int],
            ));
            assert(copied.push(self@[i as int]) =~= self@.take(i as int + 1));
            i = i + 1;
        }
        assert(self@.take(i as int) =~= self@);
        ContractStorage { entries }
    }
}

} // verus!
