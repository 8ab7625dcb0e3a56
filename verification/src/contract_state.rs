//! What a contract shows of itself to the outside: the code it runs and its
//! state, with room for fields that extensions add.

use crate::state_init::ContractCode;
use crate::storage::{
    bytes_before, entries_map, insertion_point, is_ordered, key_order, lemma_bytes_before_irreflexive,
    lemma_bytes_before_transitive, lemma_entries_map, lemma_insertion_point,
    lemma_insertion_point_splits, lemma_with_entry, with_entry, KeyOrder,
};
use vstd::prelude::*;
use vstd::utf8::encode_utf8;

verus! {

/// A JSON value. The library stores and hands on such values without looking
/// inside them.
#[verifier::external_type_specification]
#[verifier::external_body]
pub struct ExJsonValue(serde_json::Value);

/// A named field as plain values: its name and its value.
pub type FieldView = (Seq<char>, serde_json::Value);

/// The fields with each name as its UTF-8 bytes. Names are ordered as
/// strings are: byte by byte in UTF-8.
pub open spec fn by_bytes(fields: Seq<FieldView>) -> Seq<(Seq<u8>, serde_json::Value)> {
    fields.map_values(|field: FieldView| (encode_utf8(field.0), field.1))
}

/// The names of `fields` ascend strictly in the order of strings, so that
/// each name occurs once.
pub open spec fn names_ascend(fields: Seq<FieldView>) -> bool {
    is_ordered(by_bytes(fields))
}

/// The mapping from names to values that `fields` stand for.
pub open spec fn fields_map(fields: Seq<FieldView>) -> Map<Seq<char>, serde_json::Value> {
    Map::new(
        |name: Seq<char>| exists|i: int| 0 <= i < fields.len() && #[trigger] fields[i].0 == name,
        |name: Seq<char>|
            fields[choose|i: int| 0 <= i < fields.len() && #[trigger] fields[i].0 == name].1,
    )
}

/// `fields` with `name` bound to `value`: the field of that name is replaced
/// if there is one, and otherwise a new field is placed where the order of
/// names puts it.
pub open spec fn with_field(fields: Seq<FieldView>, name: Seq<char>, value: serde_json::Value) -> Seq<
    FieldView,
> {
    let at = insertion_point(by_bytes(fields), encode_utf8(name));
    if at < fields.len() && fields[at].0 == name {
        fields.update(at, (name, value))
    } else {
        fields.insert(at, (name, value))
    }
}

/// Texts with the same UTF-8 bytes are the same text.
pub proof fn lemma_encode_utf8_injective(a: Seq<char>, b: Seq<char>)
    requires
        encode_utf8(a) == encode_utf8(b),
    ensures
        a == b,
{
    vstd::utf8::encode_utf8_decode_utf8(a);
    vstd::utf8::encode_utf8_decode_utf8(b);
}

/// Where names ascend, the mapping binds each name that occurs to the value
/// beside it, and it is the mapping of the fields taken by the bytes of
/// their names.
pub proof fn lemma_fields_map(fields: Seq<FieldView>)
    requires
        names_ascend(fields),
    ensures
        forall|i: int|
            0 <= i < fields.len() ==> fields_map(fields).dom().contains(#[trigger] fields[i].0)
                && fields_map(fields)[fields[i].0] == fields[i].1,
        forall|name: Seq<char>| #[trigger]
            fields_map(fields).dom().contains(name) == entries_map(by_bytes(fields)).dom().contains(
                encode_utf8(name),
            ),
        forall|name: Seq<char>|
            fields_map(fields).dom().contains(name) ==> #[trigger] fields_map(fields)[name]
                == entries_map(by_bytes(fields))[encode_utf8(name)],
{
    let keyed = by_bytes(fields);
    lemma_entries_map(keyed);
    assert forall|i: int| 0 <= i < fields.len() implies fields_map(fields).dom().contains(
        #[trigger] fields[i].0,
    ) && fields_map(fields)[fields[i].0] == fields[i].1 by {
        let name = fields[i].0;
        assert(fields_map(fields).dom().contains(name));
        assert(keyed[i] == (encode_utf8(fields[i].0), fields[i].1));
        lemma_bytes_before_irreflexive(encode_utf8(name));
        assert forall|j: int| 0 <= j < fields.len() && (#[trigger] fields[j]).0 == name implies j
            == i by {
            assert(keyed[j] == (encode_utf8(fields[j].0), fields[j].1));
            if j < i {
                assert(bytes_before(keyed[j].0, keyed[i].0));
            } else if i < j {
                assert(bytes_before(keyed[i].0, keyed[j].0));
            }
        }
    }
    assert forall|name: Seq<char>| #[trigger]
        fields_map(fields).dom().contains(name) == entries_map(keyed).dom().contains(
            encode_utf8(name),
        ) by {
        if fields_map(fields).dom().contains(name) {
            let i = choose|i: int| 0 <= i < fields.len() && #[trigger] fields[i].0 == name;
            assert(keyed[i].0 == encode_utf8(name));
        }
        if entries_map(keyed).dom().contains(encode_utf8(name)) {
            let i = choose|i: int| 0 <= i < keyed.len() && #[trigger] keyed[i].0 == encode_utf8(name);
            lemma_encode_utf8_injective(fields[i].0, name);
            assert(fields[i].0 == name);
        }
    }
    assert forall|name: Seq<char>| fields_map(fields).dom().contains(name) implies #[trigger] fields_map(
        fields,
    )[name] == entries_map(keyed)[encode_utf8(name)] by {
        let i = choose|i: int| 0 <= i < fields.len() && #[trigger] fields[i].0 == name;
        assert(keyed[i] == (encode_utf8(name), fields[i].1));
        assert(entries_map(keyed)[keyed[i].0] == keyed[i].1);
    }
}

/// Binding a name where names ascend keeps them ascending, and changes the
/// mapping at that name alone.
pub proof fn lemma_with_field(fields: Seq<FieldView>, name: Seq<char>, value: serde_json::Value)
    requires
        names_ascend(fields),
    ensures
        by_bytes(with_field(fields, name, value)) == with_entry(
            by_bytes(fields),
            encode_utf8(name),
            value,
        ),
        names_ascend(with_field(fields, name, value)),
        fields_map(with_field(fields, name, value)) == fields_map(fields).insert(name, value),
{
    let keyed = by_bytes(fields);
    let key = encode_utf8(name);
    let at = insertion_point(keyed, key);
    let after = with_field(fields, name, value);
    lemma_insertion_point_splits(keyed, key);
    if at < fields.len() {
        assert(keyed[at].0 == encode_utf8(fields[at].0));
        if keyed[at].0 == key {
            lemma_encode_utf8_injective(fields[at].0, name);
        }
    }
    assert(by_bytes(after) =~= with_entry(keyed, key, value));
    lemma_with_entry(keyed, key, value);
    lemma_fields_map(fields);
    lemma_fields_map(after);
    let lhs = fields_map(after);
    let rhs = fields_map(fields).insert(name, value);
    assert forall|k: Seq<char>| lhs.dom().contains(k) == rhs.dom().contains(k) by {
        if encode_utf8(k) == key {
            lemma_encode_utf8_injective(k, name);
        }
    }
    assert forall|k: Seq<char>| lhs.dom().contains(k) implies lhs[k] == rhs[k] by {
        if encode_utf8(k) == key {
            lemma_encode_utf8_injective(k, name);
        }
    }
    assert(lhs =~= rhs);
}

/// `<serde_json::Value as Clone>::clone`: a copy that equals the value.
#[verifier::external_body]
fn clone_json_value(value: &serde_json::Value) -> (r: serde_json::Value)
    ensures
        r == *value,
{
    value.clone()
}

/// Named fields, held in the ascending order of their names, each name once.
#[derive(Debug, PartialEq, Eq)]
pub struct ExtraFields {
    entries: Vec<(String, serde_json::Value)>,
}

impl View for ExtraFields {
    type V = Seq<FieldView>;

    closed spec fn view(&self) -> Seq<FieldView> {
        self.entries@.map_values(|e: (String, serde_json::Value)| (e.0@, e.1))
    }
}

impl ExtraFields {
    #[verifier::type_invariant]
    spec fn well_formed(self) -> bool {
        names_ascend(self@)
    }

    /// No fields.
    pub fn new() -> (r: Self)
        ensures
            r@ == Seq::<FieldView>::empty(),
    {
        let r = ExtraFields { entries: Vec::new() };
        assert(r@ =~= Seq::<FieldView>::empty());
        assert(by_bytes(r@) =~= Seq::<(Seq<u8>, serde_json::Value)>::empty());
        r
    }

    /// Binds `name` to `value`, in place of what `name` was bound to before.
    pub fn insert(self, name: String, value: serde_json::Value) -> (r: Self)
        ensures
            r@ == with_field(self@, name@, value),
            names_ascend(r@),
            fields_map(r@) == fields_map(self@).insert(name@, value),
    {
        proof {
            use_type_invariant(&self);
            lemma_with_field(self@, name@, value);
        }
        let ghost before = self@;
        let ghost keyed = by_bytes(before);
        let ghost key = encode_utf8(name@);
        let mut entries = self.entries;
        let mut at: usize = 0;
        let mut found: bool = false;
        while at < entries.len()
            invariant_except_break
                !found,
            invariant
                at <= entries.len(),
                before == entries@.map_values(|e: (String, serde_json::Value)| (e.0@, e.1)),
                keyed == by_bytes(before),
                key == encode_utf8(name@),
                forall|i: int| 0 <= i < at ==> bytes_before(#[trigger] keyed[i].0, key),
            ensures
                at <= entries.len(),
                before == entries@.map_values(|e: (String, serde_json::Value)| (e.0@, e.1)),
                forall|i: int| 0 <= i < at ==> bytes_before(#[trigger] keyed[i].0, key),
                at < entries.len() ==> !bytes_before(keyed[at as int].0, key),
                found == (at < entries.len() && keyed[at as int].0 == key),
            decreases entries.len() - at,
        {
            let order = key_order(entries[at].0.as_str().as_bytes(), name.as_str().as_bytes());
            assert(keyed[at as int].0 == encode_utf8(entries@[at as int].0@));
            match order {
                KeyOrder::Before => {
                    at = at + 1;
                },
                KeyOrder::Same => {
                    proof {
                        lemma_bytes_before_irreflexive(key);
                    }
                    found = true;
                    break ;
                },
                KeyOrder::After => {
                    proof {
                        lemma_bytes_before_irreflexive(key);
                        if bytes_before(keyed[at as int].0, key) {
                            lemma_bytes_before_transitive(key, keyed[at as int].0, key);
                        }
                    }
                    break ;
                },
            }
        }
        proof {
            lemma_insertion_point(keyed, key, at as int);
            if at < entries.len() {
                assert(keyed[at as int].0 == encode_utf8(before[at as int].0));
                if found {
                    lemma_encode_utf8_injective(before[at as int].0, name@);
                }
            }
        }
        let ghost bound = (name@, value);
        if found {
            entries.set(at, (name, value));
            assert(entries@.map_values(|e: (String, serde_json::Value)| (e.0@, e.1))
                =~= before.update(at as int, bound));
        } else {
            entries.insert(at, (name, value));
            assert(entries@.map_values(|e: (String, serde_json::Value)| (e.0@, e.1))
                =~= before.insert(at as int, bound));
        }
        let r = ExtraFields { entries };
        assert(r@ == with_field(before, bound.0, bound.1));
        r
    }

    /// The number of fields. The names of the fields ascend.
    pub fn len(&self) -> (n: usize)
        ensures
            n == self@.len(),
            names_ascend(self@),
    {
        proof {
            use_type_invariant(self);
        }
        self.entries.len()
    }

    /// Whether there is no field.
    pub fn is_empty(&self) -> (r: bool)
        ensures
            r == (self@.len() == 0),
    {
        self.entries.len() == 0
    }

    /// The name and the value of the field at `index`, counted in the order
    /// of names.
    pub fn entry(&self, index: usize) -> (r: (&String, &serde_json::Value))
        requires
            index < self@.len(),
        ensures
            (r.0@, *r.1) == self@[index as int],
    {
        (&self.entries[index].0, &self.entries[index].1)
    }

    /// The value bound to `name`, if there is one.
    pub fn get(&self, name: &str) -> (r: Option<&serde_json::Value>)
        ensures
            r is Some <==> fields_map(self@).dom().contains(name@),
            r matches Some(value) ==> *value == fields_map(self@)[name@],
    {
        proof {
            use_type_invariant(self);
            lemma_fields_map(self@);
        }
        let mut i: usize = 0;
        while i < self.entries.len()
            invariant
                i <= self.entries.len(),
                forall|j: int| 0 <= j < i ==> (#[trigger] self@[j]).0 != name@,
                forall|j: int|
                    0 <= j < self@.len() ==> fields_map(self@).dom().contains(
                        #[trigger] self@[j].0,
                    ) && fields_map(self@)[self@[j].0] == self@[j].1,
            decreases self.entries.len() - i,
        {
            assert(self@[i as int] == (self.entries@[i as int].0@, self.entries@[i as int].1));
            if key_order(self.entries[i].0.as_str().as_bytes(), name.as_bytes()) == KeyOrder::Same {
                proof {
                    lemma_encode_utf8_injective(self@[i as int].0, name@);
                }
                assert(fields_map(self@).dom().contains(self@[i as int].0));
                return Some(&self.entries[i].1);
            }
            i = i + 1;
        }
        assert(!fields_map(self@).dom().contains(name@)) by {
            if fields_map(self@).dom().contains(name@) {
                let j = choose|j: int| 0 <= j < self@.len() && #[trigger] self@[j].0 == name@;
                assert(self@[j].0 != name@);
            }
        }
        None
    }
}

impl Clone for ExtraFields {
    fn clone(&self) -> (r: Self)
        ensures
            r@ == self@,
    {
        proof {
            use_type_invariant(self);
        }
        let mut entries: Vec<(String, serde_json::Value)> = Vec::new();
        let mut i: usize = 0;
        while i < self.entries.len()
            invariant
                i <= self.entries.len(),
                entries@.map_values(|e: (String, serde_json::Value)| (e.0@, e.1)) == self@.take(
                    i as int,
                ),
            decreases self.entries.len() - i,
        {
            let ghost copied = entries@.map_values(|e: (String, serde_json::Value)| (e.0@, e.1));
            let name = self.entries[i].0.clone();
            let value = clone_json_value(&self.entries[i].1);
            entries.push((name, value));
            assert(self@[i as int] == (self.entries@[i as int].0@, self.entries@[i as int].1));
            assert(entries@.map_values(|e: (String, serde_json::Value)| (e.0@, e.1))
                =~= copied.push(self@[i as int]));
            assert(copied.push(self@[i as int]) =~= self@.take(i as int + 1));
            i = i + 1;
        }
        assert(self@.take(i as int) =~= self@);
        ExtraFields { entries }
    }
}

impl Default for ExtraFields {
    /// No fields.
    fn default() -> (r: Self)
        ensures
            r@ == Seq::<FieldView>::empty(),
    {
        ExtraFields::new()
    }
}

/// The code and the state of a contract.
#[derive(Debug, Clone, PartialEq, Eq)]
pub struct ContractState<T> {
    /// Code the contract is deployed with.
    pub code: ContractCode,
    /// State of the contract.
    pub state: ExtraState<T>,
}

/// A state together with extra named fields.
#[derive(Debug, Clone, PartialEq, Eq)]
pub struct ExtraState<T> {
    /// The state itself.
    pub value: T,
    /// Extra fields, an ordered mapping from names to values.
    pub extra: ExtraFields,
}

impl<T> ExtraState<T> {
    /// The extra fields as a mapping from names to values.
    pub open spec fn fields(&self) -> Map<Seq<char>, serde_json::Value> {
        fields_map(self.extra@)
    }

    /// A state without extra fields.
    pub fn new(value: T) -> (r: Self)
        ensures
            r.value == value,
            r.extra@ == Seq::<FieldView>::empty(),
    {
        ExtraState { value, extra: ExtraFields::new() }
    }

    /// Sets the extra field `key` to `value`, in place of what it held. The
    /// state itself stays as it is, and so do the other fields; the names of
    /// the fields stay in ascending order, each name once.
    pub fn extra(self, key: String, value: serde_json::Value) -> (r: Self)
        ensures
            r.value == self.value,
            r.extra@ == with_field(self.extra@, key@, value),
            names_ascend(r.extra@),
            r.fields() == self.fields().insert(key@, value),
    {
        ExtraState { value: self.value, extra: self.extra.insert(key, value) }
    }
}

impl<T> From<T> for ExtraState<T> {
    /// A state without extra fields.
    fn from(value: T) -> (r: Self)
        ensures
            r.value == value,
            r.extra@ == Seq::<FieldView>::empty(),
    {
        ExtraState::new(value)
    }
}

impl<T> vstd::std_specs::convert::FromSpecImpl<T> for ExtraState<T> {
    /// The fields are executable data, of which specifications see the
    /// contents alone: what `from` returns is stated on `from`.
    open spec fn obeys_from_spec() -> bool {
        false
    }

    open spec fn from_spec(value: T) -> Self {
        arbitrary()
    }
}

} // verus!
