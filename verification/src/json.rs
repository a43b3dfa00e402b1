//! A JSON document model with the access and update operations of the json
//! crate's `JsonValue`, and the calls into that crate that parse and print it.
use vstd::prelude::*;

verus! {

/// A JSON number as the json crate keeps it: sign, decimal mantissa and
/// decimal exponent (value = mantissa * 10^exponent, negated unless positive).
#[derive(Clone, Copy, Debug, PartialEq, Eq, Structural)]
pub struct JsonNumber {
    pub positive: bool,
    pub mantissa: u64,
    pub exponent: i16,
}

/// A JSON document. Object entries keep their insertion order.
#[derive(Debug)]
pub enum Json {
    Null,
    Bool(bool),
    Number(JsonNumber),
    Str(String),
    Array(Vec<Json>),
    Object(Vec<(String, Json)>),
}

/// The mathematical value of a JSON document.
pub enum JsonView {
    Null,
    Bool(bool),
    Number(JsonNumber),
    Str(Seq<char>),
    Array(Seq<JsonView>),
    Object(Seq<(Seq<char>, JsonView)>),
}

pub open spec fn view_json(j: Json) -> JsonView
    decreases j, 1nat,
{
    match j {
        Json::Null => JsonView::Null,
        Json::Bool(b) => JsonView::Bool(b),
        Json::Number(n) => JsonView::Number(n),
        Json::Str(s) => JsonView::Str(s@),
        Json::Array(items) => JsonView::Array(view_items(items@)),
        Json::Object(entries) => JsonView::Object(view_entries(entries@)),
    }
}

pub open spec fn view_items(items: Seq<Json>) -> Seq<JsonView>
    decreases items, 0nat,
{
    if items.len() == 0 {
        Seq::empty()
    } else {
        view_items(items.drop_last()).push(view_json(items.last()))
    }
}

pub open spec fn view_entries(entries: Seq<(String, Json)>) -> Seq<(Seq<char>, JsonView)>
    decreases entries, 0nat,
{
    if entries.len() == 0 {
        Seq::empty()
    } else {
        let e = entries.last();
        view_entries(entries.drop_last()).push((e.0@, view_json(e.1)))
    }
}

impl View for Json {
    type V = JsonView;

    open spec fn view(&self) -> JsonView {
        view_json(*self)
    }
}

pub proof fn lemma_view_items(items: Seq<Json>)
    ensures
        view_items(items).len() == items.len(),
        forall|i: int| 0 <= i < items.len() ==> #[trigger] view_items(items)[i] == view_json(items[i]),
    decreases items.len(),
{
    if items.len() > 0 {
        lemma_view_items(items.drop_last());
    }
}

pub proof fn lemma_view_entries(entries: Seq<(String, Json)>)
    ensures
        view_entries(entries).len() == entries.len(),
        forall|i: int|
            0 <= i < entries.len() ==> #[trigger] view_entries(entries)[i] == (
                entries[i].0@,
                view_json(entries[i].1),
            ),
    decreases entries.len(),
{
    if entries.len() > 0 {
        lemma_view_entries(entries.drop_last());
    }
}

// ---------------------------------------------------------------------------
// What the json crate's accessors give, over the view.

/// Position of the first entry with the given key; the length when none has it.
pub open spec fn key_position(entries: Seq<(Seq<char>, JsonView)>, key: Seq<char>) -> int
    decreases entries.len(),
{
    if entries.len() == 0 {
        0
    } else if entries[0].0 == key {
        0
    } else {
        1 + key_position(entries.drop_first(), key)
    }
}

/// `value[key]`: the member of an object, `null` when absent or not an object.
pub open spec fn field(v: JsonView, key: Seq<char>) -> JsonView {
    match v {
        JsonView::Object(entries) => {
            let p = key_position(entries, key);
            if p < entries.len() {
                entries[p].1
            } else {
                JsonView::Null
            }
        },
        _ => JsonView::Null,
    }
}

/// `value[i]`: the element of an array, `null` when out of range or not an array.
pub open spec fn item(v: JsonView, i: int) -> JsonView {
    match v {
        JsonView::Array(items) => if 0 <= i < items.len() {
            items[i]
        } else {
            JsonView::Null
        },
        _ => JsonView::Null,
    }
}

/// `value.as_str()`
pub open spec fn str_of(v: JsonView) -> Option<Seq<char>> {
    match v {
        JsonView::Str(s) => Some(s),
        _ => None,
    }
}

/// `value.as_bool()`
pub open spec fn bool_of(v: JsonView) -> Option<bool> {
    match v {
        JsonView::Bool(b) => Some(b),
        _ => None,
    }
}

/// `value.as_u64()`: a non-negative number with exponent zero.
pub open spec fn u64_of(v: JsonView) -> Option<u64> {
    match v {
        JsonView::Number(n) => if n.positive && n.exponent == 0 {
            Some(n.mantissa)
        } else {
            None
        },
        _ => None,
    }
}

/// `value.len()`: elements of an array, keys of an object, zero otherwise.
pub open spec fn len_of(v: JsonView) -> nat {
    match v {
        JsonView::Array(items) => items.len(),
        JsonView::Object(entries) => entries.len(),
        _ => 0,
    }
}

/// `value.members()`: the elements of an array, nothing otherwise.
pub open spec fn members_of(v: JsonView) -> Seq<JsonView> {
    match v {
        JsonView::Array(items) => items,
        _ => Seq::empty(),
    }
}

/// `value == true`
pub open spec fn is_true(v: JsonView) -> bool {
    v == JsonView::Bool(true)
}

/// The JSON value that an optional string converts to: the string or `null`.
pub open spec fn opt_str(s: Option<Seq<char>>) -> JsonView {
    match s {
        Some(t) => JsonView::Str(t),
        None => JsonView::Null,
    }
}

/// A non-negative integer as the json crate stores it.
pub open spec fn nat_number(n: u64) -> JsonView {
    JsonView::Number(JsonNumber { positive: true, mantissa: n, exponent: 0 })
}

/// The entries after `entries[key] = value`: the first entry with the key
/// gets the new value in place, or a new entry is appended.
pub open spec fn put_entry(
    entries: Seq<(Seq<char>, JsonView)>,
    key: Seq<char>,
    value: JsonView,
) -> Seq<(Seq<char>, JsonView)> {
    let p = key_position(entries, key);
    if p < entries.len() {
        entries.update(p, (key, value))
    } else {
        entries.push((key, value))
    }
}

/// `v[key] = value`: a value that is not an object is first replaced by an
/// empty object.
pub open spec fn with_field(v: JsonView, key: Seq<char>, value: JsonView) -> JsonView {
    match v {
        JsonView::Object(entries) => JsonView::Object(put_entry(entries, key, value)),
        _ => JsonView::Object(seq![(key, value)]),
    }
}

/// The keys of the entries are pairwise distinct.
pub open spec fn keys_distinct(entries: Seq<(Seq<char>, JsonView)>) -> bool {
    forall|i: int, j: int|
        0 <= i < entries.len() && 0 <= j < entries.len() && i != j ==> #[trigger] entries[i].0
            != #[trigger] entries[j].0
}

/// Well-formed: no object, at any depth, holds a key twice (as in every
/// value of the json crate, whose objects override a key on insertion).
pub open spec fn json_wf(v: JsonView) -> bool
    decreases v,
{
    match v {
        JsonView::Array(items) => forall|i: int| 0 <= i < items.len() ==> json_wf(#[trigger] items[i]),
        JsonView::Object(entries) => {
            &&& keys_distinct(entries)
            &&& forall|i: int| 0 <= i < entries.len() ==> json_wf(#[trigger] entries[i].1)
        },
        _ => true,
    }
}

pub proof fn lemma_key_position_at(entries: Seq<(Seq<char>, JsonView)>, key: Seq<char>, i: int)
    requires
        0 <= i <= entries.len(),
        forall|j: int| 0 <= j < i ==> entries[j].0 != key,
        i == entries.len() || entries[i].0 == key,
    ensures
        key_position(entries, key) == i,
    decreases i,
{
    if i > 0 {
        let rest = entries.drop_first();
        assert forall|j: int| 0 <= j < i - 1 implies rest[j].0 != key by {
            assert(rest[j] == entries[j + 1]);
        }
        lemma_key_position_at(rest, key, i - 1);
    }
}

pub proof fn lemma_key_position_bound(entries: Seq<(Seq<char>, JsonView)>, key: Seq<char>)
    ensures
        0 <= key_position(entries, key) <= entries.len(),
        key_position(entries, key) < entries.len() ==> entries[key_position(entries, key)].0
            == key,
        forall|j: int| 0 <= j < key_position(entries, key) ==> entries[j].0 != key,
    decreases entries.len(),
{
    if entries.len() > 0 && entries[0].0 != key {
        let rest = entries.drop_first();
        lemma_key_position_bound(rest, key);
        assert forall|j: int| 0 <= j < key_position(entries, key) implies entries[j].0 != key by {
            if j > 0 {
                assert(entries[j] == rest[j - 1]);
            }
        }
    }
}

// ---------------------------------------------------------------------------
// Laws of the model.

/// Reading a member back after writing it gives the written value.
pub proof fn law_field_after_write(v: JsonView, key: Seq<char>, value: JsonView)
    ensures
        field(with_field(v, key, value), key) == value,
{
    let entries = match v {
        JsonView::Object(es) => es,
        _ => Seq::empty(),
    };
    let after = match with_field(v, key, value) {
        JsonView::Object(es) => es,
        _ => Seq::empty(),
    };
    lemma_key_position_bound(entries, key);
    let p = key_position(entries, key);
    if p < entries.len() {
        assert forall|j: int| 0 <= j < p implies after[j].0 != key by {
            assert(after[j] == entries[j]);
        }
        lemma_key_position_at(after, key, p);
    } else {
        assert forall|j: int| 0 <= j < p implies after[j].0 != key by {
            if v is Object {
                assert(after[j] == entries[j]);
            }
        }
        lemma_key_position_at(after, key, p);
    }
}

/// Writing a member leaves every other member as it was, in an object.
pub proof fn law_field_other_after_write(
    v: JsonView,
    key: Seq<char>,
    other: Seq<char>,
    value: JsonView,
)
    requires
        v is Object,
        other != key,
    ensures
        field(with_field(v, key, value), other) == field(v, other),
{
    let entries = v->Object_0;
    let after = with_field(v, key, value)->Object_0;
    lemma_key_position_bound(entries, key);
    lemma_key_position_bound(entries, other);
    let q = key_position(entries, other);
    let p = key_position(entries, key);
    if q < entries.len() {
        assert forall|j: int| 0 <= j < q implies after[j].0 != other by {
            if j == p {
            } else {
                assert(after[j] == entries[j]);
            }
        }
        lemma_key_position_at(after, other, q);
    } else {
        assert forall|j: int| 0 <= j < after.len() implies after[j].0 != other by {
            if j == p || j == entries.len() {
            } else {
                assert(after[j] == entries[j]);
            }
        }
        lemma_key_position_at(after, other, after.len() as int);
    }
}

/// Writing a well-formed member into a well-formed value keeps it well-formed.
pub proof fn law_write_keeps_wf(v: JsonView, key: Seq<char>, value: JsonView)
    requires
        json_wf(v),
        json_wf(value),
    ensures
        json_wf(with_field(v, key, value)),
{
    let entries = match v {
        JsonView::Object(es) => es,
        _ => Seq::empty(),
    };
    let after = with_field(v, key, value)->Object_0;
    lemma_key_position_bound(entries, key);
    let p = key_position(entries, key);
    if !(v is Object) {
        assert(after.len() == 1);
        assert(json_wf(after[0].1));
    } else if p < entries.len() {
        assert(keys_distinct(after)) by {
            assert forall|i: int, j: int|
                0 <= i < after.len() && 0 <= j < after.len() && i != j implies #[trigger] after[i].0
                != #[trigger] after[j].0 by {
                assert(after[i].0 == entries[i].0);
                assert(after[j].0 == entries[j].0);
            }
        }
        assert forall|i: int| 0 <= i < after.len() implies json_wf(#[trigger] after[i].1) by {
            if i != p {
                assert(after[i] == entries[i]);
            }
        }
    } else {
        assert(keys_distinct(after)) by {
            assert forall|i: int, j: int|
                0 <= i < after.len() && 0 <= j < after.len() && i != j implies #[trigger] after[i].0
                != #[trigger] after[j].0 by {
                if i < entries.len() && j < entries.len() {
                    assert(after[i] == entries[i]);
                    assert(after[j] == entries[j]);
                } else if i < entries.len() {
                    assert(after[i] == entries[i]);
                } else {
                    assert(after[j] == entries[j]);
                }
            }
        }
        assert forall|i: int| 0 <= i < after.len() implies json_wf(#[trigger] after[i].1) by {
            if i < entries.len() {
                assert(after[i] == entries[i]);
            }
        }
    }
}

/// A member of a well-formed value is well-formed.
pub proof fn lemma_field_wf(v: JsonView, key: Seq<char>)
    requires
        json_wf(v),
    ensures
        json_wf(field(v, key)),
{
    if let JsonView::Object(entries) = v {
        lemma_key_position_bound(entries, key);
    }
}

/// Appending a well-formed value to a well-formed array member keeps a
/// well-formed value well-formed.
pub proof fn law_push_keeps_wf(v: JsonView, key: Seq<char>, value: JsonView)
    requires
        json_wf(v),
        json_wf(value),
        field(v, key) is Array,
    ensures
        json_wf(with_field(v, key, JsonView::Array(field(v, key)->Array_0.push(value)))),
{
    lemma_field_wf(v, key);
    let items = field(v, key)->Array_0;
    let pushed = items.push(value);
    assert forall|i: int| 0 <= i < pushed.len() implies json_wf(#[trigger] pushed[i]) by {
        if i < items.len() {
            assert(pushed[i] == items[i]);
        }
    }
    law_write_keeps_wf(v, key, JsonView::Array(pushed));
}

// ---------------------------------------------------------------------------
// Executable access and update.

/// Position of the first entry of `entries` whose key is `key`; the number
/// of entries when none has it.
fn find_key(entries: &Vec<(String, Json)>, key: &str) -> (res: usize)
    ensures
        res == key_position(view_entries(entries@), key@),
        res <= entries.len(),
{
    let k = key.to_owned();
    proof {
        lemma_view_entries(entries@);
    }
    let ghost es = view_entries(entries@);
    let mut i: usize = 0;
    while i < entries.len()
        invariant
            0 <= i <= entries.len(),
            es == view_entries(entries@),
            es.len() == entries.len(),
            forall|j: int|
                0 <= j < entries.len() ==> #[trigger] es[j] == (
                    entries@[j].0@,
                    view_json(entries@[j].1),
                ),
            k@ == key@,
            forall|j: int| 0 <= j < i ==> es[j].0 != key@,
        decreases entries.len() - i,
    {
        if entries[i].0 == k {
            proof {
                assert(es[i as int].0 == key@);
                lemma_key_position_at(es, key@, i as int);
            }
            return i;
        }
        proof {
            assert(es[i as int].0 != key@);
        }
        i += 1;
    }
    proof {
        lemma_key_position_at(es, key@, i as int);
    }
    i
}

impl Json {
    /// `self[key]`
    pub fn get(&self, key: &str) -> (res: &Json)
        ensures
            res@ == field(self@, key@),
    {
        match self {
            Json::Object(entries) => {
                let p = find_key(entries, key);
                proof {
                    lemma_view_entries(entries@);
                }
                if p < entries.len() {
                    &entries[p].1
                } else {
                    &Json::Null
                }
            },
            _ => &Json::Null,
        }
    }

    /// `self[i]`
    pub fn at(&self, i: usize) -> (res: &Json)
        ensures
            res@ == item(self@, i as int),
    {
        match self {
            Json::Array(items) => {
                proof {
                    lemma_view_items(items@);
                }
                if i < items.len() {
                    &items[i]
                } else {
                    &Json::Null
                }
            },
            _ => &Json::Null,
        }
    }

    /// `self.as_str()`
    pub fn as_str(&self) -> (res: Option<&str>)
        ensures
            match res {
                Some(s) => str_of(self@) == Some(s@),
                None => str_of(self@) is None,
            },
    {
        match self {
            Json::Str(s) => Some(s.as_str()),
            _ => None,
        }
    }

    /// `self.as_bool()`
    pub fn as_bool(&self) -> (res: Option<bool>)
        ensures
            res == bool_of(self@),
    {
        match self {
            Json::Bool(b) => Some(*b),
            _ => None,
        }
    }

    /// `self.as_u64()`
    pub fn as_u64(&self) -> (res: Option<u64>)
        ensures
            res == u64_of(self@),
    {
        match self {
            Json::Number(n) => if n.positive && n.exponent == 0 {
                Some(n.mantissa)
            } else {
                None
            },
            _ => None,
        }
    }

    /// `self.len()`
    pub fn len(&self) -> (res: usize)
        ensures
            res == len_of(self@),
    {
        match self {
            Json::Array(items) => {
                proof {
                    lemma_view_items(items@);
                }
                items.len()
            },
            Json::Object(entries) => {
                proof {
                    lemma_view_entries(entries@);
                }
                entries.len()
            },
            _ => 0,
        }
    }

    /// `self.members()`
    pub fn members(&self) -> (res: &[Json])
        ensures
            view_items(res@) == members_of(self@),
            res@.len() == members_of(self@).len(),
            forall|i: int| 0 <= i < res@.len() ==> #[trigger] res@[i]@ == members_of(self@)[i],
    {
        match self {
            Json::Array(items) => {
                proof {
                    lemma_view_items(items@);
                }
                items.as_slice()
            },
            _ => {
                let empty: &[Json] = &[];
                proof {
                    assert(empty@ =~= Seq::<Json>::empty());
                    assert(view_items(empty@) =~= Seq::<JsonView>::empty());
                }
                empty
            },
        }
    }

    /// `self == true`
    pub fn is_true(&self) -> (res: bool)
        ensures
            res == is_true(self@),
    {
        match self {
            Json::Bool(b) => *b,
            _ => false,
        }
    }

    /// A string value.
    pub fn string(s: &str) -> (res: Json)
        ensures
            res@ == JsonView::Str(s@),
    {
        Json::Str(s.to_owned())
    }

    /// The value an optional string converts to: the string or `null`.
    pub fn opt_string(s: Option<&str>) -> (res: Json)
        ensures
            res@ == opt_str(
                match s {
                    Some(t) => Some(t@),
                    None => None,
                },
            ),
    {
        match s {
            Some(t) => Json::Str(t.to_owned()),
            None => Json::Null,
        }
    }

    /// A non-negative integer value.
    pub fn number(n: u64) -> (res: Json)
        ensures
            res@ == nat_number(n),
    {
        Json::Number(JsonNumber { positive: true, mantissa: n, exponent: 0 })
    }

    /// An empty array.
    pub fn empty_array() -> (res: Json)
        ensures
            res@ == JsonView::Array(Seq::empty()),
    {
        let v: Vec<Json> = Vec::new();
        proof {
            assert(view_items(v@) =~= Seq::<JsonView>::empty());
        }
        Json::Array(v)
    }

    /// `self[key] = value`
    pub fn set_field(&mut self, key: &str, value: Json)
        ensures
            final(self)@ == with_field(old(self)@, key@, value@),
            json_wf(old(self)@) && json_wf(value@) ==> json_wf(final(self)@),
    {
        proof {
            if json_wf(old(self)@) && json_wf(value@) {
                law_write_keeps_wf(old(self)@, key@, value@);
            }
        }
        let mut cur = Json::Null;
        std::mem::swap(&mut cur, self);
        let mut entries = match cur {
            Json::Object(es) => es,
            _ => Vec::new(),
        };
        let ghost old_view = old(self)@;
        let ghost es0 = view_entries(entries@);
        proof {
            lemma_view_entries(entries@);
            if !(old_view is Object) {
                assert(es0 =~= Seq::<(Seq<char>, JsonView)>::empty());
            }
        }
        let i = find_key(&entries, key);
        let k = key.to_owned();
        let ghost new_value = value@;
        let ghost entries_before = entries@;
        if i < entries.len() {
            entries.set(i, (k, value));
            proof {
                lemma_view_entries(entries@);
                assert(view_entries(entries@) =~= es0.update(i as int, (key@, new_value)));
            }
        } else {
            entries.push((k, value));
            proof {
                lemma_view_entries(entries@);
                assert(view_entries(entries@) =~= es0.push((key@, new_value)));
            }
        }
        *self = Json::Object(entries);
        proof {
            if !(old_view is Object) {
                assert(es0.push((key@, new_value)) =~= seq![(key@, new_value)]);
            }
        }
    }

    /// `self[key].push(value)` on an object whose member `key` is an array.
    pub fn push_to_field(&mut self, key: &str, value: Json)
        requires
            old(self)@ is Object,
            field(old(self)@, key@) is Array,
        ensures
            final(self)@ == with_field(
                old(self)@,
                key@,
                JsonView::Array(field(old(self)@, key@)->Array_0.push(value@)),
            ),
            json_wf(old(self)@) && json_wf(value@) ==> json_wf(final(self)@),
    {
        proof {
            if json_wf(old(self)@) && json_wf(value@) {
                law_push_keeps_wf(old(self)@, key@, value@);
            }
        }
        let mut cur = Json::Null;
        std::mem::swap(&mut cur, self);
        let ghost old_view = old(self)@;
        let ghost new_value = value@;
        match cur {
            Json::Object(mut entries) => {
                let p = find_key(&entries, key);
                let ghost es0 = view_entries(entries@);
                proof {
                    lemma_view_entries(entries@);
                    lemma_key_position_bound(es0, key@);
                }
                let (k, member) = entries.remove(p);
                let pushed = match member {
                    Json::Array(mut items) => {
                        let ghost items0 = items@;
                        items.push(value);
                        proof {
                            lemma_view_items(items0);
                            lemma_view_items(items@);
                            assert(view_items(items@) =~= view_items(items0).push(new_value));
                        }
                        Json::Array(items)
                    },
                    other => other,
                };
                entries.insert(p, (k, pushed));
                proof {
                    lemma_view_entries(entries@);
                    assert(view_entries(entries@) =~= es0.update(
                        p as int,
                        (key@, JsonView::Array(field(old_view, key@)->Array_0.push(new_value))),
                    ));
                }
                *self = Json::Object(entries);
            },
            other => {
                *self = other;
            },
        }
    }
}

} // verus!
