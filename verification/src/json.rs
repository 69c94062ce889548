//! JSON values as the library reads them.
//!
//! A number keeps the form it was written in (a non-negative integer, a
//! negative integer, or a float) for equality, and beside it the `f64` it reads
//! as: that value as an [`OrderedFloat`], whether it has no fractional part, its
//! `Display` text, and the `f32` it rounds to. An object keeps its entries in ascending key order with
//! distinct keys, as a `serde_json` map does; negative zero is stored as zero.

use vstd::prelude::*;
use crate::text::{str_eq, str_lt, key_lt, lemma_key_lt_irreflexive, lemma_key_lt_asymmetric, lemma_key_lt_transitive,
    lemma_key_lt_total};
use crate::time::{OrderedFloat, F32Bits};

verus! {

/// The written form of a JSON number.
#[derive(Debug, Clone, Copy, PartialEq, Eq, Structural)]
pub enum NumberRepr {
    /// A non-negative integer
    PosInt(u64),
    /// A negative integer
    NegInt(i64),
    /// A number with a fraction or exponent
    Float,
}

/// A JSON number.
#[derive(Debug, Clone)]
pub struct JsonNumber {
    /// The written form
    pub repr: NumberRepr,
    /// The `f64` the number reads as
    pub value: OrderedFloat,
    /// Whether that `f64` has no fractional part
    pub integral: bool,
    /// The `Display` text of that `f64`
    pub text: String,
    /// The bit pattern of that `f64` rounded to `f32`
    pub single: F32Bits,
}

/// A JSON value.
#[derive(Debug)]
pub enum JsonValue {
    Null,
    Bool(bool),
    Number(JsonNumber),
    String(String),
    Array(Vec<JsonValue>),
    Object(Vec<(String, JsonValue)>),
}

/// A JSON number with its text as a character sequence.
pub struct NumberView {
    pub repr: NumberRepr,
    pub value: OrderedFloat,
    pub integral: bool,
    pub text: Seq<char>,
    pub single: F32Bits,
}

/// A JSON value with strings as character sequences.
pub enum JsonView {
    Null,
    Bool(bool),
    Number(NumberView),
    String(Seq<char>),
    Array(Seq<JsonView>),
    Object(Seq<(Seq<char>, JsonView)>),
}

/// The view of a JSON number.
pub open spec fn number_view(n: JsonNumber) -> NumberView {
    NumberView { repr: n.repr, value: n.value, integral: n.integral, text: n.text@, single: n.single }
}

/// The view of a JSON value.
pub open spec fn json_view(v: JsonValue) -> JsonView
    decreases v,
{
    match v {
        JsonValue::Null => JsonView::Null,
        JsonValue::Bool(b) => JsonView::Bool(b),
        JsonValue::Number(n) => JsonView::Number(number_view(n)),
        JsonValue::String(s) => JsonView::String(s@),
        JsonValue::Array(items) => JsonView::Array(
            Seq::new(
                items@.len(),
                |i: int|
                    {
                        if 0 <= i < items@.len() {
                            proof {
                                broadcast use vstd::std_specs::vec::axiom_vec_decreases_to_view;

                            }
                            json_view(items@[i])
                        } else {
                            JsonView::Null
                        }
                    },
            ),
        ),
        JsonValue::Object(entries) => JsonView::Object(
            Seq::new(
                entries@.len(),
                |i: int|
                    {
                        if 0 <= i < entries@.len() {
                            proof {
                                broadcast use vstd::std_specs::vec::axiom_vec_decreases_to_view;

                            }
                            (entries@[i].0@, json_view(entries@[i].1))
                        } else {
                            (Seq::empty(), JsonView::Null)
                        }
                    },
            ),
        ),
    }
}

impl View for JsonValue {
    type V = JsonView;

    open spec fn view(&self) -> JsonView {
        json_view(*self)
    }
}

/// The value stored under `key` in an object's entries, if any.
pub open spec fn obj_get(entries: Seq<(Seq<char>, JsonView)>, key: Seq<char>) -> Option<JsonView>
    decreases entries.len(),
{
    if entries.len() == 0 {
        None
    } else if entries[0].0 == key {
        Some(entries[0].1)
    } else {
        obj_get(entries.drop_first(), key)
    }
}

/// The entry stored under `key` in an object, if `v` is an object holding one.
pub open spec fn field(v: JsonView, key: Seq<char>) -> Option<JsonView> {
    match v {
        JsonView::Object(entries) => obj_get(entries, key),
        _ => None,
    }
}

/// Whether two character sequences are equal.
fn chars_equal_str(a: &str, b: &str) -> (r: bool)
    ensures
        r == (a@ == b@),
{
    str_eq(a, b)
}

/// Whether `i` is where `key` goes among `entries`: every entry before it sorts
/// before `key`, and the entry at it (if any) does not.
pub open spec fn is_insert_pos(entries: Seq<(Seq<char>, JsonView)>, key: Seq<char>, i: int) -> bool {
    &&& 0 <= i <= entries.len()
    &&& i < entries.len() ==> !key_lt(entries[i].0, key)
    &&& forall|j: int| 0 <= j < i ==> key_lt(entries[j].0, key)
}

/// Where `key` goes among `entries`.
pub open spec fn insert_pos(entries: Seq<(Seq<char>, JsonView)>, key: Seq<char>) -> int {
    choose|i: int| is_insert_pos(entries, key, i)
}

/// The entries after setting `key` to `value`: the entry under `key` is
/// replaced where it stands, or a new one goes in at its place in key order.
pub open spec fn obj_insert(entries: Seq<(Seq<char>, JsonView)>, key: Seq<char>, value: JsonView) -> Seq<(Seq<char>, JsonView)> {
    let i = insert_pos(entries, key);
    if i < entries.len() && entries[i].0 == key {
        entries.update(i, (key, value))
    } else {
        entries.insert(i, (key, value))
    }
}

/// There is only one place for a key.
pub proof fn lemma_insert_pos_unique(entries: Seq<(Seq<char>, JsonView)>, key: Seq<char>, i: int)
    requires
        is_insert_pos(entries, key, i),
    ensures
        insert_pos(entries, key) == i,
{
    let k = insert_pos(entries, key);
    if k < i {
        assert(key_lt(entries[k].0, key));
    } else if k > i {
        assert(key_lt(entries[i].0, key));
    }
}

/// The view of a list of object entries.
pub open spec fn entries_view(entries: Seq<(String, JsonValue)>) -> Seq<(Seq<char>, JsonView)> {
    Seq::new(entries.len(), |i: int| (entries[i].0@, entries[i].1@))
}

/// Set `key` to `value` among object entries kept in key order.
pub fn insert_entry(entries: &mut Vec<(String, JsonValue)>, key: &str, value: JsonValue)
    ensures
        entries_view(final(entries)@) == obj_insert(entries_view(old(entries)@), key@, value@),
{
    let ghost ev = entries_view(entries@);
    let mut i: usize = 0;
    while i < entries.len() && str_lt(entries[i].0.as_str(), key)
        invariant
            i <= entries.len(),
            ev == entries_view(entries@),
            forall|j: int| 0 <= j < i ==> key_lt(ev[j].0, key@),
        decreases entries.len() - i,
    {
        i += 1;
    }
    proof {
        lemma_insert_pos_unique(ev, key@, i as int);
    }
    if i < entries.len() && str_eq(entries[i].0.as_str(), key) {
        entries.set(i, (String::from_str(key), value));
        assert(entries_view(entries@) =~= ev.update(i as int, (key@, value@)));
    } else {
        entries.insert(i, (String::from_str(key), value));
        assert(entries_view(entries@) =~= ev.insert(i as int, (key@, value@)));
    }
}

/// A copy of a list of object entries.
pub fn copy_entries(entries: &Vec<(String, JsonValue)>) -> (r: Vec<(String, JsonValue)>)
    ensures
        entries_view(r@) == entries_view(entries@),
{
    let mut out: Vec<(String, JsonValue)> = Vec::new();
    let mut i: usize = 0;
    while i < entries.len()
        invariant
            i <= entries.len(),
            out@.len() == i,
            entries_view(out@) == entries_view(entries@.take(i as int)),
        decreases entries.len() - i,
    {
        let ghost before = out@;
        let k = entries[i].0.clone();
        let v = entries[i].1.deep_copy();
        let ghost kv = (k@, v@);
        assert(kv == (entries@[i as int].0@, entries@[i as int].1@));
        out.push((k, v));
        assert forall|j: int| 0 <= j <= i implies entries_view(out@)[j] == entries_view(entries@.take(i + 1))[j] by {
            if j < i {
                assert(out@[j] == before[j]);
                assert(entries_view(before)[j] == entries_view(entries@.take(i as int))[j]);
            } else {
                assert(entries_view(out@)[j] == kv);
            }
        }
        assert(entries_view(out@) =~= entries_view(entries@.take(i + 1)));
        i += 1;
    }
    assert(entries@.take(entries.len() as int) =~= entries@);
    out
}

/// The entry found under `key` is the first one that carries it.
pub proof fn lemma_obj_get_first(entries: Seq<(Seq<char>, JsonView)>, key: Seq<char>, i: int)
    requires
        0 <= i < entries.len(),
        entries[i].0 == key,
        forall|j: int| 0 <= j < i ==> entries[j].0 != key,
    ensures
        obj_get(entries, key) == Some(entries[i].1),
    decreases i,
{
    if i > 0 {
        let rest = entries.drop_first();
        assert forall|j: int| 0 <= j < i - 1 implies rest[j].0 != key by {
            assert(rest[j] == entries[j + 1]);
        }
        lemma_obj_get_first(rest, key, i - 1);
    }
}

/// No entry carries `key`, so nothing is found under it.
pub proof fn lemma_obj_get_absent(entries: Seq<(Seq<char>, JsonView)>, key: Seq<char>)
    requires
        forall|j: int| 0 <= j < entries.len() ==> entries[j].0 != key,
    ensures
        obj_get(entries, key) is None,
    decreases entries.len(),
{
    if entries.len() > 0 {
        let rest = entries.drop_first();
        assert forall|j: int| 0 <= j < rest.len() implies rest[j].0 != key by {
            assert(rest[j] == entries[j + 1]);
        }
        lemma_obj_get_absent(rest, key);
    }
}

/// What is found under `key` is the first entry carrying it, or nothing.
pub proof fn lemma_obj_get_cases(entries: Seq<(Seq<char>, JsonView)>, key: Seq<char>)
    ensures
        obj_get(entries, key) is None ==> forall|j: int| 0 <= j < entries.len() ==> entries[j].0 != key,
        obj_get(entries, key) is Some ==> exists|i: int|
            0 <= i < entries.len() && entries[i].0 == key && obj_get(entries, key) == Some(entries[i].1) && forall|
                j: int,
            | 0 <= j < i ==> entries[j].0 != key,
    decreases entries.len(),
{
    if entries.len() > 0 {
        let rest = entries.drop_first();
        lemma_obj_get_cases(rest, key);
        if entries[0].0 != key {
            if obj_get(rest, key) is None {
                assert forall|j: int| 0 <= j < entries.len() implies entries[j].0 != key by {
                    if j > 0 {
                        assert(entries[j] == rest[j - 1]);
                    }
                }
            } else {
                let i = choose|i: int|
                    0 <= i < rest.len() && rest[i].0 == key && obj_get(rest, key) == Some(rest[i].1) && forall|j: int|
                        0 <= j < i ==> rest[j].0 != key;
                assert(entries[i + 1] == rest[i]);
                assert forall|j: int| 0 <= j < i + 1 implies entries[j].0 != key by {
                    if j > 0 {
                        assert(entries[j] == rest[j - 1]);
                    }
                }
            }
        }
    }
}

/// There is a place for every key: the first entry that does not sort before
/// it, or the end.
pub proof fn lemma_insert_pos_exists(entries: Seq<(Seq<char>, JsonView)>, key: Seq<char>)
    ensures
        is_insert_pos(entries, key, insert_pos(entries, key)),
    decreases entries.len(),
{
    if entries.len() == 0 {
        assert(is_insert_pos(entries, key, 0));
    } else if !key_lt(entries[0].0, key) {
        assert(is_insert_pos(entries, key, 0));
    } else {
        let rest = entries.drop_first();
        lemma_insert_pos_exists(rest, key);
        let i = insert_pos(rest, key);
        assert forall|j: int| 0 <= j < i + 1 implies key_lt(entries[j].0, key) by {
            if j > 0 {
                assert(entries[j] == rest[j - 1]);
            }
        }
        if i < rest.len() {
            assert(entries[i + 1] == rest[i]);
        }
        assert(is_insert_pos(entries, key, i + 1));
    }
}

/// Reading back what was written: after setting `key` to `value`, `value` is
/// found under `key`.
pub proof fn lemma_obj_insert_get(entries: Seq<(Seq<char>, JsonView)>, key: Seq<char>, value: JsonView)
    ensures
        obj_get(obj_insert(entries, key, value), key) == Some(value),
{
    lemma_insert_pos_exists(entries, key);
    let i = insert_pos(entries, key);
    let e2 = obj_insert(entries, key, value);
    assert forall|j: int| 0 <= j < i implies e2[j].0 != key by {
        lemma_key_lt_irreflexive(key);
        assert(e2[j] == entries[j]);
    }
    lemma_obj_get_first(e2, key, i);
}

/// Setting `key` leaves what is found under every other key as it was.
pub proof fn lemma_obj_insert_other(
    entries: Seq<(Seq<char>, JsonView)>,
    key: Seq<char>,
    value: JsonView,
    other: Seq<char>,
)
    requires
        other != key,
    ensures
        obj_get(obj_insert(entries, key, value), other) == obj_get(entries, other),
{
    lemma_insert_pos_exists(entries, key);
    let i = insert_pos(entries, key);
    let e2 = obj_insert(entries, key, value);
    let updated = i < entries.len() && entries[i].0 == key;
    lemma_obj_get_cases(entries, other);
    if obj_get(entries, other) is None {
        assert forall|j: int| 0 <= j < e2.len() implies e2[j].0 != other by {
            if updated {
                if j != i {
                    assert(e2[j] == entries[j]);
                }
            } else if j < i {
                assert(e2[j] == entries[j]);
            } else if j > i {
                assert(e2[j] == entries[j - 1]);
            }
        }
        lemma_obj_get_absent(e2, other);
    } else {
        let f = choose|f: int|
            0 <= f < entries.len() && entries[f].0 == other && obj_get(entries, other) == Some(entries[f].1) && forall|
                j: int,
            | 0 <= j < f ==> entries[j].0 != other;
        if updated {
            assert(f != i);
            assert forall|j: int| 0 <= j < f implies e2[j].0 != other by {
                if j != i {
                    assert(e2[j] == entries[j]);
                }
            }
            lemma_obj_get_first(e2, other, f);
        } else if f < i {
            assert forall|j: int| 0 <= j < f implies e2[j].0 != other by {
                assert(e2[j] == entries[j]);
            }
            lemma_obj_get_first(e2, other, f);
        } else {
            assert(e2[f + 1] == entries[f]);
            assert forall|j: int| 0 <= j < f + 1 implies e2[j].0 != other by {
                if j < i {
                    assert(e2[j] == entries[j]);
                } else if j > i {
                    assert(e2[j] == entries[j - 1]);
                }
            }
            lemma_obj_get_first(e2, other, f + 1);
        }
    }
}

/// Whether the entries are in strictly ascending key order (so no key occurs
/// twice).
pub open spec fn keys_sorted(entries: Seq<(Seq<char>, JsonView)>) -> bool {
    forall|i: int, j: int| 0 <= i < j < entries.len() ==> key_lt(entries[i].0, entries[j].0)
}

/// Setting a key keeps entries in key order.
pub proof fn lemma_obj_insert_sorted(entries: Seq<(Seq<char>, JsonView)>, key: Seq<char>, value: JsonView)
    requires
        keys_sorted(entries),
    ensures
        keys_sorted(obj_insert(entries, key, value)),
{
    lemma_insert_pos_exists(entries, key);
    let i = insert_pos(entries, key);
    let e2 = obj_insert(entries, key, value);
    if i < entries.len() && entries[i].0 == key {
        assert forall|a: int, b: int| 0 <= a < b < e2.len() implies key_lt(e2[a].0, e2[b].0) by {
            assert(e2[a].0 == entries[a].0);
            assert(e2[b].0 == entries[b].0);
        }
    } else {
        assert forall|a: int, b: int| 0 <= a < b < e2.len() implies key_lt(e2[a].0, e2[b].0) by {
            if b < i {
                assert(e2[a] == entries[a] && e2[b] == entries[b]);
            } else if b == i {
                assert(e2[a] == entries[a]);
            } else if a == i {
                assert(e2[b] == entries[b - 1]);
                lemma_key_lt_total(entries[i].0, key);
                if b - 1 > i {
                    lemma_key_lt_transitive(key, entries[i].0, entries[b - 1].0);
                }
            } else if a < i {
                assert(e2[a] == entries[a] && e2[b] == entries[b - 1]);
            } else {
                assert(e2[a] == entries[a - 1] && e2[b] == entries[b - 1]);
            }
        }
    }
}

/// Setting, in order, the entries of a sorted list rebuilds that list.
pub proof fn lemma_insert_sorted_last(entries: Seq<(Seq<char>, JsonView)>)
    requires
        keys_sorted(entries),
        entries.len() > 0,
    ensures
        obj_insert(entries.drop_last(), entries.last().0, entries.last().1) == entries,
{
    let init = entries.drop_last();
    let last = entries.last();
    let n = init.len() as int;
    assert(is_insert_pos(init, last.0, n)) by {
        assert forall|j: int| 0 <= j < n implies key_lt(init[j].0, last.0) by {
            assert(init[j] == entries[j]);
        }
    }
    lemma_insert_pos_unique(init, last.0, n);
    assert(obj_insert(init, last.0, last.1) =~= entries);
}

impl JsonNumber {
    /// Whether two numbers are equal as written.
    pub fn equals(&self, other: &JsonNumber) -> (r: bool)
        ensures
            r == (number_view(*self) == number_view(*other)),
    {
        self.repr == other.repr && self.value.order == other.value.order && self.value.nan
            == other.value.nan && self.integral == other.integral && self.single.bits == other.single.bits
            && chars_equal_str(
            self.text.as_str(),
            other.text.as_str(),
        )
    }

    /// A copy of this number.
    pub fn copy(&self) -> (r: JsonNumber)
        ensures
            number_view(r) == number_view(*self),
    {
        JsonNumber {
            repr: self.repr,
            value: self.value,
            integral: self.integral,
            text: self.text.clone(),
            single: self.single,
        }
    }
}

impl JsonValue {
    /// Whether two JSON values are equal: numbers by their written form, arrays
    /// element by element, objects entry by entry.
    pub fn equals(&self, other: &JsonValue) -> (r: bool)
        ensures
            r == (self@ == other@),
        decreases *self,
    {
        match (self, other) {
            (JsonValue::Null, JsonValue::Null) => true,
            (JsonValue::Bool(a), JsonValue::Bool(b)) => *a == *b,
            (JsonValue::Number(a), JsonValue::Number(b)) => a.equals(b),
            (JsonValue::String(a), JsonValue::String(b)) => chars_equal_str(a.as_str(), b.as_str()),
            (JsonValue::Array(a), JsonValue::Array(b)) => {
                let ghost va = self@->Array_0;
                let ghost vb = other@->Array_0;
                if a.len() != b.len() {
                    assert(va.len() != vb.len());
                    return false;
                }
                let mut i: usize = 0;
                while i < a.len()
                    invariant
                        a.len() == b.len(),
                        i <= a.len(),
                        va == self@->Array_0,
                        vb == other@->Array_0,
                        *self == JsonValue::Array(*a),
                        *other == JsonValue::Array(*b),
                        forall|j: int| 0 <= j < i ==> va[j] == vb[j],
                    decreases a.len() - i,
                {
                    proof {
                        broadcast use vstd::std_specs::vec::axiom_vec_decreases_to_view;

                        assert(decreases_to!(*self => a@[i as int]));
                    }
                    if !a[i].equals(&b[i]) {
                        assert(va[i as int] != vb[i as int]);
                        return false;
                    }
                    i += 1;
                }
                assert(va =~= vb);
                true
            },
            (JsonValue::Object(a), JsonValue::Object(b)) => {
                let ghost va = self@->Object_0;
                let ghost vb = other@->Object_0;
                if a.len() != b.len() {
                    assert(va.len() != vb.len());
                    return false;
                }
                let mut i: usize = 0;
                while i < a.len()
                    invariant
                        a.len() == b.len(),
                        i <= a.len(),
                        va == self@->Object_0,
                        vb == other@->Object_0,
                        *self == JsonValue::Object(*a),
                        *other == JsonValue::Object(*b),
                        forall|j: int| 0 <= j < i ==> va[j] == vb[j],
                    decreases a.len() - i,
                {
                    proof {
                        broadcast use vstd::std_specs::vec::axiom_vec_decreases_to_view;

                        assert(decreases_to!(*self => a@[i as int].1));
                    }
                    if !chars_equal_str(a[i].0.as_str(), b[i].0.as_str()) {
                        assert(va[i as int].0 != vb[i as int].0);
                        return false;
                    }
                    if !a[i].1.equals(&b[i].1) {
                        assert(va[i as int].1 != vb[i as int].1);
                        return false;
                    }
                    i += 1;
                }
                assert(va =~= vb);
                true
            },
            _ => false,
        }
    }

    /// A copy of this value.
    pub fn deep_copy(&self) -> (r: JsonValue)
        ensures
            r@ == self@,
        decreases *self,
    {
        match self {
            JsonValue::Null => JsonValue::Null,
            JsonValue::Bool(b) => JsonValue::Bool(*b),
            JsonValue::Number(n) => JsonValue::Number(n.copy()),
            JsonValue::String(s) => JsonValue::String(s.clone()),
            JsonValue::Array(a) => {
                let mut out: Vec<JsonValue> = Vec::new();
                let mut i: usize = 0;
                while i < a.len()
                    invariant
                        i <= a.len(),
                        out@.len() == i,
                        *self == JsonValue::Array(*a),
                        forall|j: int| 0 <= j < i ==> (#[trigger] out@[j])@ == a@[j]@,
                    decreases a.len() - i,
                {
                    proof {
                        broadcast use vstd::std_specs::vec::axiom_vec_decreases_to_view;

                        assert(self@ is Array);
                        assert(decreases_to!(*self => a@[i as int]));
                    }
                    out.push(a[i].deep_copy());
                    i += 1;
                }
                let r = JsonValue::Array(out);
                assert(r@->Array_0 =~= self@->Array_0);
                r
            },
            JsonValue::Object(a) => {
                let mut out: Vec<(String, JsonValue)> = Vec::new();
                let mut i: usize = 0;
                while i < a.len()
                    invariant
                        i <= a.len(),
                        out@.len() == i,
                        *self == JsonValue::Object(*a),
                        forall|j: int| 0 <= j < i ==> (#[trigger] out@[j]).0@ == a@[j].0@ && out@[j].1@ == a@[j].1@,
                    decreases a.len() - i,
                {
                    proof {
                        broadcast use vstd::std_specs::vec::axiom_vec_decreases_to_view;

                        assert(self@ is Object);
                        assert(decreases_to!(*self => a@[i as int].1));
                    }
                    out.push((a[i].0.clone(), a[i].1.deep_copy()));
                    i += 1;
                }
                let r = JsonValue::Object(out);
                assert(r@->Object_0 =~= self@->Object_0);
                r
            },
        }
    }

    /// The value stored under `key`, if this is an object holding one.
    pub fn get(&self, key: &str) -> (r: Option<&JsonValue>)
        ensures
            match r {
                Some(v) => field(self@, key@) == Some(v@),
                None => field(self@, key@) is None,
            },
    {
        match self {
            JsonValue::Object(entries) => {
                let ghost ve = self@->Object_0;
                let mut i: usize = 0;
                assert(ve.skip(0) =~= ve);
                while i < entries.len()
                    invariant
                        i <= entries.len(),
                        ve == self@->Object_0,
                        *self == JsonValue::Object(*entries),
                        obj_get(ve, key@) == obj_get(ve.skip(i as int), key@),
                    decreases entries.len() - i,
                {
                    assert(ve.skip(i as int).drop_first() =~= ve.skip(i + 1));
                    assert(ve.skip(i as int)[0] == ve[i as int]);
                    if str_eq(entries[i].0.as_str(), key) {
                        return Some(&entries[i].1);
                    }
                    i += 1;
                }
                None
            },
            _ => None,
        }
    }

    /// Whether this value is `null`.
    pub fn is_null(&self) -> (r: bool)
        ensures
            r == (self@ is Null),
    {
        matches!(self, JsonValue::Null)
    }

    /// Whether this value is a number.
    pub fn is_number(&self) -> (r: bool)
        ensures
            r == (self@ is Number),
    {
        matches!(self, JsonValue::Number(_))
    }

    /// Whether this value is an object.
    pub fn is_object(&self) -> (r: bool)
        ensures
            r == (self@ is Object),
    {
        matches!(self, JsonValue::Object(_))
    }

    /// The string held by this value, if it is a string.
    pub fn as_str(&self) -> (r: Option<&str>)
        ensures
            match r {
                Some(s) => self@ == JsonView::String(s@),
                None => !(self@ is String),
            },
    {
        match self {
            JsonValue::String(s) => Some(s.as_str()),
            _ => None,
        }
    }

    /// A JSON string holding the given text.
    pub fn from_str(s: &str) -> (r: JsonValue)
        ensures
            r@ == JsonView::String(s@),
    {
        JsonValue::String(String::from_str(s))
    }
}

impl Clone for JsonValue {
    fn clone(&self) -> (r: Self)
        ensures
            r@ == self@,
    {
        self.deep_copy()
    }
}

} // verus!
