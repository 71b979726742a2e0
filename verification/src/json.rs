//! JSON values.
use vstd::prelude::*;

use crate::text;
use crate::text::{decimal, str_eq};

verus! {

/// A JSON number, with how it is written and, where it is an unsigned integer of 64
/// bits, what it is.
#[derive(Debug, PartialEq, Eq)]
pub struct JsonNumber {
    text: String,
    unsigned: Option<u64>,
    value: serde_json::Value,
}

impl JsonNumber {
    /// How the number is written.
    pub closed spec fn text(self) -> Seq<char> {
        self.text@
    }

    /// What the number is, where it is an unsigned integer of 64 bits.
    pub closed spec fn unsigned(self) -> Option<u64> {
        self.unsigned
    }

    #[verifier::type_invariant]
    closed spec fn wf(self) -> bool {
        value_tree(self.value) == JsonView::Number(self.text@, self.unsigned)
    }

    fn copy(&self) -> (number: JsonNumber)
        ensures
            number.text() == self.text(),
            number.unsigned() == self.unsigned(),
    {
        proof {
            use_type_invariant(self);
        }
        JsonNumber {
            text: self.text.clone(),
            unsigned: self.unsigned,
            value: copy_value(&self.value),
        }
    }

    fn to_value(&self) -> (value: serde_json::Value)
        ensures
            value_tree(value) == JsonView::Number(self.text(), self.unsigned()),
    {
        proof {
            use_type_invariant(self);
        }
        copy_value(&self.value)
    }
}

/// A JSON value.
#[derive(Debug, PartialEq, Eq)]
pub enum Json {
    Null,
    Bool(bool),
    Number(JsonNumber),
    Text(String),
    Array(Vec<Json>),
    Object(Vec<(String, Json)>),
}

/// What a [`Json`] holds.
#[verifier::ext_equal]
pub enum JsonView {
    Null,
    Bool(bool),
    Number(Seq<char>, Option<u64>),
    Text(Seq<char>),
    Array(Seq<JsonView>),
    Object(Seq<(Seq<char>, JsonView)>),
}

impl DeepView for Json {
    type V = JsonView;

    open spec fn deep_view(&self) -> JsonView {
        json_view(*self)
    }
}

/// What a JSON value holds.
pub open spec fn json_view(value: Json) -> JsonView
    decreases value,
{
    match value {
        Json::Null => JsonView::Null,
        Json::Bool(b) => JsonView::Bool(b),
        Json::Number(n) => JsonView::Number(n.text(), n.unsigned()),
        Json::Text(s) => JsonView::Text(s@),
        Json::Array(items) => JsonView::Array(
            Seq::new(
                items@.len(),
                |i: int|
                    if 0 <= i < items@.len() {
                        json_view(items@[i])
                    } else {
                        JsonView::Null
                    },
            ),
        ),
        Json::Object(entries) => JsonView::Object(
            Seq::new(
                entries@.len(),
                |i: int|
                    if 0 <= i < entries@.len() {
                        (entries@[i].0@, json_view(entries@[i].1))
                    } else {
                        (Seq::empty(), JsonView::Null)
                    },
            ),
        ),
    }
}

/// The view of an array is the sequence of its items' views.
pub broadcast proof fn lemma_array_view(items: Vec<Json>)
    ensures
        #[trigger] Json::Array(items).deep_view() == JsonView::Array(items.deep_view()),
{
    assert(Json::Array(items).deep_view()->Array_0 =~= items.deep_view());
}

/// The view of an object is the sequence of its entries' views.
pub broadcast proof fn lemma_object_view(entries: Vec<(String, Json)>)
    ensures
        #[trigger] Json::Object(entries).deep_view() == JsonView::Object(entries.deep_view()),
{
    assert(Json::Object(entries).deep_view()->Object_0 =~= entries.deep_view());
}

impl Clone for Json {
    fn clone(&self) -> (out: Json)
        ensures
            out.deep_view() == self.deep_view(),
        decreases self,
    {
        broadcast use {lemma_array_view, lemma_object_view};

        match self {
            Json::Null => Json::Null,
            Json::Bool(b) => Json::Bool(*b),
            Json::Number(n) => Json::Number(n.copy()),
            Json::Text(s) => Json::Text(s.clone()),
            Json::Array(items) => {
                let mut copy: Vec<Json> = Vec::new();
                for i in 0..items.len()
                    invariant
                        *self == Json::Array(*items),
                        copy@.len() == i,
                        forall|j: int| 0 <= j < i ==> copy@[j].deep_view() == items@[j].deep_view(),
                {
                    assert(decreases_to!(*self => self->Array_0));
                    copy.push(items[i].clone());
                }
                assert(copy.deep_view() =~= items.deep_view());
                Json::Array(copy)
            },
            Json::Object(entries) => {
                let mut copy: Vec<(String, Json)> = Vec::new();
                for i in 0..entries.len()
                    invariant
                        *self == Json::Object(*entries),
                        copy@.len() == i,
                        forall|j: int|
                            0 <= j < i ==> copy@[j].deep_view() == entries@[j].deep_view(),
                {
                    assert(decreases_to!(*self => self->Object_0));
                    copy.push((entries[i].0.clone(), entries[i].1.clone()));
                }
                assert(copy.deep_view() =~= entries.deep_view());
                Json::Object(copy)
            },
        }
    }
}

/// The value of the first entry under a key.
pub open spec fn lookup(entries: Seq<(Seq<char>, JsonView)>, key: Seq<char>) -> Option<JsonView>
    decreases entries.len(),
{
    if entries.len() == 0 {
        None
    } else if entries[0].0 == key {
        Some(entries[0].1)
    } else {
        lookup(entries.drop_first(), key)
    }
}

/// The entries with the value of the first one under `key` replaced, or with a
/// new one at the end where none stands under it.
pub open spec fn with_entry(
    entries: Seq<(Seq<char>, JsonView)>,
    key: Seq<char>,
    value: JsonView,
) -> Seq<(Seq<char>, JsonView)>
    decreases entries.len(),
{
    if entries.len() == 0 {
        seq![(key, value)]
    } else if entries[0].0 == key {
        seq![(key, value)] + entries.drop_first()
    } else {
        seq![entries[0]] + with_entry(entries.drop_first(), key, value)
    }
}

impl JsonView {
    /// The value that an object holds under a key.
    pub open spec fn get(self, key: Seq<char>) -> Option<JsonView> {
        match self {
            JsonView::Object(entries) => lookup(entries, key),
            _ => None,
        }
    }

    /// The value that an object in an object holds.
    pub open spec fn get_in(self, outer: Seq<char>, inner: Seq<char>) -> Option<JsonView> {
        match self.get(outer) {
            Some(value) => value.get(inner),
            None => None,
        }
    }

    /// The characters of a text.
    pub open spec fn as_text(self) -> Option<Seq<char>> {
        match self {
            JsonView::Text(s) => Some(s),
            _ => None,
        }
    }

    /// An unsigned integer of 64 bits.
    pub open spec fn as_u64(self) -> Option<u64> {
        match self {
            JsonView::Number(_, unsigned) => unsigned,
            _ => None,
        }
    }

    /// The items of an array.
    pub open spec fn as_array(self) -> Option<Seq<JsonView>> {
        match self {
            JsonView::Array(items) => Some(items),
            _ => None,
        }
    }
}

/// The text among optional values.
pub open spec fn text_in(value: Option<JsonView>) -> Option<Seq<char>> {
    match value {
        Some(v) => v.as_text(),
        None => None,
    }
}

/// The first of two optional values that is there.
pub open spec fn or_else<T>(first: Option<T>, second: Option<T>) -> Option<T> {
    match first {
        Some(v) => Some(v),
        None => second,
    }
}

impl Json {
    /// The value that an object holds under a key; nothing of any other value.
    pub fn get(&self, key: &str) -> (value: Option<&Json>)
        ensures
            value.deep_view() == self.deep_view().get(key@),
    {
        broadcast use lemma_object_view;

        match self {
            Json::Object(entries) => {
                let ghost view = entries.deep_view();
                assert(view.skip(0) =~= view);
                for i in 0..entries.len()
                    invariant
                        view == entries.deep_view(),
                        self.deep_view() == JsonView::Object(view),
                        lookup(view, key@) == lookup(view.skip(i as int), key@),
                {
                    assert(view.skip(i as int).drop_first() =~= view.skip(i + 1));
                    if str_eq(entries[i].0.as_str(), key) {
                        return Some(&entries[i].1);
                    }
                }
                None
            },
            _ => None,
        }
    }

    /// The value that an object in an object holds.
    pub fn get_in(&self, outer: &str, inner: &str) -> (value: Option<&Json>)
        ensures
            value.deep_view() == self.deep_view().get_in(outer@, inner@),
    {
        match self.get(outer) {
            Some(v) => v.get(inner),
            None => None,
        }
    }

    /// The characters of a text; nothing of any other value.
    pub fn as_text(&self) -> (text: Option<&str>)
        ensures
            text.deep_view() == self.deep_view().as_text(),
    {
        match self {
            Json::Text(s) => Some(s.as_str()),
            _ => None,
        }
    }

    /// The number, where it is an unsigned integer of 64 bits.
    pub fn as_u64(&self) -> (number: Option<u64>)
        ensures
            number == self.deep_view().as_u64(),
    {
        match self {
            Json::Number(n) => n.unsigned,
            _ => None,
        }
    }

    /// The items of an array; nothing of any other value.
    pub fn as_array(&self) -> (items: Option<&Vec<Json>>)
        ensures
            items.deep_view() == self.deep_view().as_array(),
    {
        broadcast use lemma_array_view;

        match self {
            Json::Array(items) => Some(items),
            _ => None,
        }
    }

    /// A text value.
    pub fn text(s: &str) -> (value: Json)
        ensures
            value.deep_view() == JsonView::Text(s@),
    {
        Json::Text(s.to_owned())
    }

    /// An unsigned integer.
    pub fn unsigned(n: u64) -> (value: Json)
        ensures
            value.deep_view() == JsonView::Number(text::decimal_text(n as nat), Some(n)),
    {
        Json::Number(
            JsonNumber { text: decimal(n as u128), unsigned: Some(n), value: unsigned_value(n) },
        )
    }

    /// An array.
    pub fn array(items: Vec<Json>) -> (value: Json)
        ensures
            value.deep_view() == JsonView::Array(items.deep_view()),
    {
        broadcast use lemma_array_view;

        Json::Array(items)
    }
}

/// Puts a value under a key of an object's entries: in the place of the first
/// one that stands under it, or at the end.
pub fn set_entry(entries: &mut Vec<(String, Json)>, key: String, value: Json)
    ensures
        final(entries).deep_view() == with_entry(old(entries).deep_view(), key@, value.deep_view()),
{
    let ghost before = entries.deep_view();
    let ghost k = key@;
    let ghost v = value.deep_view();
    let n = entries.len();
    let mut i: usize = 0;
    assert(before.skip(0) =~= before);
    while i < n
        invariant
            n == entries.len(),
            i <= n,
            entries.deep_view() == before,
            before == old(entries).deep_view(),
            k == key@,
            v == value.deep_view(),
            with_entry(before, k, v) == before.take(i as int) + with_entry(
                before.skip(i as int),
                k,
                v,
            ),
        decreases n - i,
    {
        let ghost rest = before.skip(i as int);
        assert(rest.drop_first() =~= before.skip(i + 1));
        if str_eq(entries[i].0.as_str(), key.as_str()) {
            entries.set(i, (key, value));
            return ;
        }
        i = i + 1;
    }
    entries.push((key, value));
}

/// Whether two JSON values are the same.
pub fn json_eq(a: &Json, b: &Json) -> (same: bool)
    ensures
        same == (a.deep_view() == b.deep_view()),
    decreases a,
{
    broadcast use {lemma_array_view, lemma_object_view};

    match (a, b) {
        (Json::Null, Json::Null) => true,
        (Json::Bool(x), Json::Bool(y)) => *x == *y,
        (Json::Number(x), Json::Number(y)) => {
            let same_unsigned = match (x.unsigned, y.unsigned) {
                (Some(m), Some(n)) => m == n,
                (None, None) => true,
                _ => false,
            };
            same_unsigned && str_eq(x.text.as_str(), y.text.as_str())
        },
        (Json::Text(x), Json::Text(y)) => str_eq(x.as_str(), y.as_str()),
        (Json::Array(x), Json::Array(y)) => {
            let ghost xs = x.deep_view();
            let ghost ys = y.deep_view();
            if x.len() != y.len() {
                assert(xs.len() != ys.len());
                return false;
            }
            for i in 0..x.len()
                invariant
                    *a == Json::Array(*x),
                    xs == x.deep_view(),
                    ys == y.deep_view(),
                    a.deep_view() == JsonView::Array(xs),
                    b.deep_view() == JsonView::Array(ys),
                    x.len() == y.len(),
                    forall|j: int| 0 <= j < i ==> xs[j] == ys[j],
            {
                if !json_eq(&x[i], &y[i]) {
                    assert(xs[i as int] != ys[i as int]);
                    return false;
                }
            }
            assert(xs =~= ys);
            true
        },
        (Json::Object(x), Json::Object(y)) => {
            let ghost xs = x.deep_view();
            let ghost ys = y.deep_view();
            if x.len() != y.len() {
                assert(xs.len() != ys.len());
                return false;
            }
            for i in 0..x.len()
                invariant
                    *a == Json::Object(*x),
                    xs == x.deep_view(),
                    ys == y.deep_view(),
                    a.deep_view() == JsonView::Object(xs),
                    b.deep_view() == JsonView::Object(ys),
                    x.len() == y.len(),
                    forall|j: int| 0 <= j < i ==> xs[j] == ys[j],
            {
                if !str_eq(x[i].0.as_str(), y[i].0.as_str()) || !json_eq(&x[i].1, &y[i].1) {
                    assert(xs[i as int] != ys[i as int]);
                    return false;
                }
            }
            assert(xs =~= ys);
            true
        },
        _ => false,
    }
}

/// The entries of an object that is being put together.
pub struct Fields {
    pub entries: Vec<(String, Json)>,
}

impl DeepView for Fields {
    type V = Seq<(Seq<char>, JsonView)>;

    open spec fn deep_view(&self) -> Seq<(Seq<char>, JsonView)> {
        self.entries.deep_view()
    }
}

impl Fields {
    /// No entries.
    pub fn new() -> (fields: Fields)
        ensures
            fields.deep_view() == Seq::<(Seq<char>, JsonView)>::empty(),
    {
        Fields { entries: Vec::new() }
    }

    /// The entries with one more.
    pub fn with(self, key: &str, value: Json) -> (fields: Fields)
        ensures
            fields.deep_view() == self.deep_view().push((key@, value.deep_view())),
    {
        let mut entries = self.entries;
        entries.push((key.to_owned(), value));
        Fields { entries }
    }

    /// The object that has these entries.
    pub fn object(self) -> (value: Json)
        ensures
            value.deep_view() == JsonView::Object(self.deep_view()),
    {
        broadcast use lemma_object_view;

        Json::Object(self.entries)
    }
}

// ── JSON text ───────────────────────────────────────────────────────────

/// A `serde_json::Value`.
#[verifier::external_type_specification]
#[verifier::external_body]
pub struct ExValue(serde_json::Value);

/// What a `serde_json::Value` holds.
pub uninterp spec fn value_tree(value: serde_json::Value) -> JsonView;

/// What `serde_json::from_str::<Value>` makes of a text: the value, or what its
/// error says.
pub uninterp spec fn parsed_text(text: Seq<char>) -> Result<JsonView, Seq<char>>;

/// The first value of a text that may hold more than one, where a stream
/// deserializer of `serde_json` reads one.
pub uninterp spec fn leading_value(text: Seq<char>) -> Option<JsonView>;

/// Whether `serde_json` reads a text as one JSON value, whatever it holds.
pub uninterp spec fn is_json_text(text: Seq<char>) -> bool;

/// One key stands before another: by the first character in which they differ, and
/// a key before every longer one that begins with it.
pub open spec fn key_before(a: Seq<char>, b: Seq<char>) -> bool
    decreases a.len(),
{
    b.len() > 0 && (a.len() == 0 || a[0] < b[0] || (a[0] == b[0] && key_before(
        a.drop_first(),
        b.drop_first(),
    )))
}

/// Sorted entries with one more: in place of the one that has its key, or where its
/// key belongs.
pub open spec fn with_sorted(
    entries: Seq<(Seq<char>, JsonView)>,
    key: Seq<char>,
    value: JsonView,
) -> Seq<(Seq<char>, JsonView)>
    decreases entries.len(),
{
    if entries.len() == 0 || key_before(key, entries[0].0) {
        seq![(key, value)] + entries
    } else if entries[0].0 == key {
        seq![(key, value)] + entries.drop_first()
    } else {
        seq![entries[0]] + with_sorted(entries.drop_first(), key, value)
    }
}

/// The entries that a `serde_json::Map` holds once these were put into it, in
/// the order in which it hands them out: sorted by key, and of those with one key
/// the last.
pub open spec fn map_entries(entries: Seq<(Seq<char>, JsonView)>) -> Seq<(Seq<char>, JsonView)>
    decreases entries.len(),
{
    if entries.len() == 0 {
        Seq::empty()
    } else {
        with_sorted(map_entries(entries.drop_last()), entries.last().0, entries.last().1)
    }
}

/// The compact text that a `serde_json::Value` writes.
pub uninterp spec fn compact_text(tree: JsonView) -> Seq<char>;

/// Two values are the same but for numbers that are no unsigned integers: those may
/// be others, and written otherwise.
pub open spec fn same_but_fractions(a: JsonView, b: JsonView) -> bool
    decreases a,
{
    match (a, b) {
        (JsonView::Null, JsonView::Null) => true,
        (JsonView::Bool(x), JsonView::Bool(y)) => x == y,
        (JsonView::Number(x, m), JsonView::Number(y, n)) => m == n && (m is Some ==> x == y),
        (JsonView::Text(x), JsonView::Text(y)) => x == y,
        (JsonView::Array(x), JsonView::Array(y)) => x.len() == y.len() && forall|i: int|
            0 <= i < x.len() ==> same_but_fractions(#[trigger] x[i], y[i]),
        (JsonView::Object(x), JsonView::Object(y)) => x.len() == y.len() && forall|i: int|
            0 <= i < x.len() ==> (#[trigger] x[i]).0 == y[i].0 && same_but_fractions(
                x[i].1,
                y[i].1,
            ),
        _ => false,
    }
}

/// One level of a `serde_json::Value`.
pub enum Parts {
    Null,
    Bool(bool),
    Number(String, Option<u64>, serde_json::Value),
    Text(String),
    Array(Vec<serde_json::Value>),
    Object(Vec<(String, serde_json::Value)>),
}

/// What the items of one level hold.
pub open spec fn item_trees(items: Seq<serde_json::Value>) -> Seq<JsonView> {
    items.map_values(|item: serde_json::Value| value_tree(item))
}

/// What the entries of one level hold.
pub open spec fn entry_trees(entries: Seq<(String, serde_json::Value)>) -> Seq<
    (Seq<char>, JsonView),
> {
    entries.map_values(|entry: (String, serde_json::Value)| (entry.0@, value_tree(entry.1)))
}

/// Calls `serde_json::from_str` for a `Value`. The outcome is named: the value
/// it holds, or the text of the error.
#[verifier::external_body]
fn from_str(text: &str) -> (outcome: Result<serde_json::Value, String>)
    ensures
        match outcome {
            Ok(value) => parsed_text(text@) == Ok::<JsonView, Seq<char>>(value_tree(value)),
            Err(message) => parsed_text(text@) == Err::<JsonView, Seq<char>>(message@),
        },
{
    serde_json::from_str::<serde_json::Value>(text).map_err(|e| e.to_string())
}

/// Takes the first value from `serde_json::Deserializer::from_str(..).into_iter()`.
/// The outcome is named; an error counts as no value.
#[verifier::external_body]
fn next_value(text: &str) -> (value: Option<serde_json::Value>)
    ensures
        match value {
            Some(v) => leading_value(text@) == Some(value_tree(v)),
            None => leading_value(text@) is None,
        },
{
    serde_json::Deserializer::from_str(text).into_iter::<serde_json::Value>().next().and_then(
        Result::ok,
    )
}

/// Calls `serde_json::from_str` for a `serde::de::IgnoredAny`: whether the text
/// is one JSON value. The answer is named.
#[verifier::external_body]
pub(crate) fn reads_as_json(text: &str) -> (reads: bool)
    ensures
        reads == is_json_text(text@),
{
    serde_json::from_str::<serde::de::IgnoredAny>(text).is_ok()
}

/// Tells the variants of a `serde_json::Value` apart. A number is given by its
/// own text, by what `Number::as_u64` answers and as the value that it is; an
/// object's entries come in the order of its map.
#[verifier::external_body]
fn into_parts(value: serde_json::Value) -> (parts: Parts)
    ensures
        value_tree(value) == match parts {
            Parts::Null => JsonView::Null,
            Parts::Bool(b) => JsonView::Bool(b),
            Parts::Number(text, unsigned, _) => JsonView::Number(text@, unsigned),
            Parts::Text(s) => JsonView::Text(s@),
            Parts::Array(items) => JsonView::Array(item_trees(items@)),
            Parts::Object(entries) => JsonView::Object(entry_trees(entries@)),
        },
        parts matches Parts::Number(_, _, number) ==> value_tree(number) == value_tree(value),
{
    match value {
        serde_json::Value::Null => Parts::Null,
        serde_json::Value::Bool(b) => Parts::Bool(b),
        serde_json::Value::Number(n) => {
            Parts::Number(n.to_string(), n.as_u64(), serde_json::Value::Number(n))
        },
        serde_json::Value::String(s) => Parts::Text(s),
        serde_json::Value::Array(items) => Parts::Array(items),
        serde_json::Value::Object(map) => Parts::Object(map.into_iter().collect()),
    }
}

/// Calls `clone` on a `serde_json::Value`: a value that holds the same.
#[verifier::external_body]
fn copy_value(value: &serde_json::Value) -> (copy: serde_json::Value)
    ensures
        value_tree(copy) == value_tree(*value),
{
    value.clone()
}

/// Calls `serde_json::Value::from` on an unsigned integer: a number that is written
/// in decimal digits.
#[verifier::external_body]
fn unsigned_value(n: u64) -> (value: serde_json::Value)
    ensures
        value_tree(value) == JsonView::Number(text::decimal_text(n as nat), Some(n)),
{
    serde_json::Value::from(n)
}

/// Makes a `serde_json::Value` of one level. An object's entries go through a
/// `serde_json::Map`, by default a `BTreeMap`: it keeps them sorted by key, and of
/// those with one key the last.
#[verifier::external_body]
fn from_parts(parts: Parts) -> (value: serde_json::Value)
    ensures
        value_tree(value) == match parts {
            Parts::Null => JsonView::Null,
            Parts::Bool(b) => JsonView::Bool(b),
            Parts::Number(_, _, number) => value_tree(number),
            Parts::Text(s) => JsonView::Text(s@),
            Parts::Array(items) => JsonView::Array(item_trees(items@)),
            Parts::Object(entries) => JsonView::Object(map_entries(entry_trees(entries@))),
        },
{
    match parts {
        Parts::Null => serde_json::Value::Null,
        Parts::Bool(b) => serde_json::Value::Bool(b),
        Parts::Number(_, _, number) => number,
        Parts::Text(s) => serde_json::Value::String(s),
        Parts::Array(items) => serde_json::Value::Array(items),
        Parts::Object(entries) => serde_json::Value::Object(entries.into_iter().collect()),
    }
}

/// Calls `to_string` on a `serde_json::Value`: its compact JSON text, named as
/// a function of what the value holds. An object's text stands in braces. Where
/// `serde_json::from_str` reads the text, it gives back what was written, but for
/// fractions, which it may read with a small error. It does not read a text that is
/// nested too deeply; how deep that is, is left unsaid.
#[verifier::external_body]
fn write_compact(value: &serde_json::Value) -> (text: String)
    ensures
        text@ == compact_text(value_tree(*value)),
        value_tree(*value) is Object ==> text@.len() > 0 && text@[0] == '{' && text@.last() == '}',
        match parsed_text(text@) {
            Ok(back) => same_but_fractions(value_tree(*value), back),
            Err(_) => true,
        },
{
    value.to_string()
}

/// The JSON value that a `serde_json::Value` holds.
fn json_of(value: serde_json::Value) -> (json: Json)
    ensures
        json.deep_view() == value_tree(value),
    decreases value_tree(value),
{
    broadcast use {lemma_array_view, lemma_object_view};

    let ghost tree = value_tree(value);
    match into_parts(value) {
        Parts::Null => Json::Null,
        Parts::Bool(b) => Json::Bool(b),
        Parts::Number(text, unsigned, value) => Json::Number(
            JsonNumber { text, unsigned, value },
        ),
        Parts::Text(s) => Json::Text(s),
        Parts::Array(items) => {
            let ghost all = items@;
            let mut rest = items;
            let mut out: Vec<Json> = Vec::new();
            while rest.len() > 0
                invariant
                    tree == value_tree(value),
                    tree == JsonView::Array(item_trees(all)),
                    out.len() + rest.len() == all.len(),
                    rest@ == all.skip(out.len() as int),
                    forall|j: int| 0 <= j < out.len() ==> out@[j].deep_view() == value_tree(all[j]),
                decreases rest.len(),
            {
                let ghost k = out.len() as int;
                let item = rest.remove(0);
                assert(decreases_to!(tree->Array_0 => tree->Array_0[k]));
                out.push(json_of(item));
            }
            assert(out.deep_view() =~= item_trees(all));
            Json::Array(out)
        },
        Parts::Object(entries) => {
            let ghost all = entries@;
            let mut rest = entries;
            let mut out: Vec<(String, Json)> = Vec::new();
            while rest.len() > 0
                invariant
                    tree == value_tree(value),
                    tree == JsonView::Object(entry_trees(all)),
                    out.len() + rest.len() == all.len(),
                    rest@ == all.skip(out.len() as int),
                    forall|j: int|
                        0 <= j < out.len() ==> out@[j].deep_view() == (
                            all[j].0@,
                            value_tree(all[j].1),
                        ),
                decreases rest.len(),
            {
                let ghost k = out.len() as int;
                let (key, item) = rest.remove(0);
                assert(decreases_to!(tree->Object_0[k] => tree->Object_0[k].1));
                out.push((key, json_of(item)));
            }
            assert(out.deep_view() =~= entry_trees(all));
            Json::Object(out)
        },
    }
}

/// The value that a JSON value becomes in `serde_json`: objects are gathered in its
/// map.
pub open spec fn stored(tree: JsonView) -> JsonView
    decreases tree,
{
    match tree {
        JsonView::Array(items) => JsonView::Array(stored_items(items)),
        JsonView::Object(entries) => JsonView::Object(map_entries(stored_entries(entries))),
        other => other,
    }
}

/// Each of an array's items, as `serde_json` holds it.
pub open spec fn stored_items(items: Seq<JsonView>) -> Seq<JsonView>
    decreases items,
{
    Seq::new(
        items.len(),
        |i: int|
            if 0 <= i < items.len() {
                stored(items[i])
            } else {
                JsonView::Null
            },
    )
}

/// Each of an object's entries, with its value as `serde_json` holds it.
pub open spec fn stored_entries(entries: Seq<(Seq<char>, JsonView)>) -> Seq<(Seq<char>, JsonView)>
    decreases entries,
{
    Seq::new(
        entries.len(),
        |i: int|
            if 0 <= i < entries.len() {
                (entries[i].0, stored(entries[i].1))
            } else {
                (Seq::empty(), JsonView::Null)
            },
    )
}

fn value_of(json: &Json) -> (value: serde_json::Value)
    ensures
        value_tree(value) == stored(json.deep_view()),
    decreases json,
{
    broadcast use {lemma_array_view, lemma_object_view};

    match json {
        Json::Null => from_parts(Parts::Null),
        Json::Bool(b) => from_parts(Parts::Bool(*b)),
        Json::Number(n) => n.to_value(),
        Json::Text(s) => from_parts(Parts::Text(s.clone())),
        Json::Array(items) => {
            let mut out: Vec<serde_json::Value> = Vec::new();
            for i in 0..items.len()
                invariant
                    *json == Json::Array(*items),
                    out.len() == i,
                    forall|j: int|
                        0 <= j < i ==> value_tree(#[trigger] out@[j]) == stored(
                            items@[j].deep_view(),
                        ),
            {
                assert(decreases_to!(*json => json->Array_0));
                out.push(value_of(&items[i]));
            }
            assert(item_trees(out@) =~= stored_items(items.deep_view()));
            from_parts(Parts::Array(out))
        },
        Json::Object(entries) => {
            let mut out: Vec<(String, serde_json::Value)> = Vec::new();
            let ghost given = entries.deep_view();
            for i in 0..entries.len()
                invariant
                    *json == Json::Object(*entries),
                    given == entries.deep_view(),
                    out.len() == i,
                    forall|j: int|
                        #![trigger out@[j]]
                        0 <= j < i ==> out@[j].0@ == given[j].0 && value_tree(out@[j].1) == stored(
                            given[j].1,
                        ),
            {
                assert(decreases_to!(*json => json->Object_0));
                out.push((entries[i].0.clone(), value_of(&entries[i].1)));
            }
            assert(entry_trees(out@) =~= stored_entries(given));
            from_parts(Parts::Object(out))
        },
    }
}

/// Reads a JSON text.
pub fn parse_json(text: &str) -> (outcome: Result<Json, String>)
    ensures
        match outcome {
            Ok(json) => parsed_text(text@) == Ok::<JsonView, Seq<char>>(json.deep_view()),
            Err(message) => parsed_text(text@) == Err::<JsonView, Seq<char>>(message@),
        },
{
    match from_str(text) {
        Ok(value) => Ok(json_of(value)),
        Err(message) => Err(message),
    }
}

/// Reads the first JSON value of a text.
pub fn parse_leading_json(text: &str) -> (json: Option<Json>)
    ensures
        json.deep_view() == leading_value(text@),
{
    match next_value(text) {
        Some(value) => Some(json_of(value)),
        None => None,
    }
}

/// The compact text of a JSON value.
pub open spec fn text_of(tree: JsonView) -> Seq<char> {
    compact_text(stored(tree))
}

/// Writes a JSON value as compact text.
pub fn write_json(json: &Json) -> (text: String)
    ensures
        text@ == text_of(json.deep_view()),
        json.deep_view() is Object ==> text@.len() > 0 && text@[0] == '{' && text@.last() == '}',
        match parsed_text(text@) {
            Ok(back) => same_but_fractions(stored(json.deep_view()), back),
            Err(_) => true,
        },
{
    write_compact(&value_of(json))
}

// ── Laws ────────────────────────────────────────────────────────────────

/// Under a key stands the value of the first entry that has it, and nothing where no
/// entry has it.
pub proof fn law_lookup_finds_the_first(entries: Seq<(Seq<char>, JsonView)>, key: Seq<char>)
    ensures
        match lookup(entries, key) {
            Some(value) => exists|i: int|
                {
                    &&& 0 <= i < entries.len()
                    &&& #[trigger] entries[i] == (key, value)
                    &&& forall|j: int| 0 <= j < i ==> (#[trigger] entries[j]).0 != key
                },
            None => forall|j: int| 0 <= j < entries.len() ==> (#[trigger] entries[j]).0 != key,
        },
    decreases entries.len(),
{
    if entries.len() > 0 {
        if entries[0].0 == key {
            assert(entries[0] == (key, lookup(entries, key).unwrap()));
        } else {
            let rest = entries.drop_first();
            law_lookup_finds_the_first(rest, key);
            match lookup(entries, key) {
                Some(value) => {
                    let i = choose|i: int|
                        {
                            &&& 0 <= i < rest.len()
                            &&& #[trigger] rest[i] == (key, value)
                            &&& forall|j: int| 0 <= j < i ==> (#[trigger] rest[j]).0 != key
                        };
                    assert(entries[i + 1] == (key, value));
                    assert forall|j: int| 0 <= j < i + 1 implies (#[trigger] entries[j]).0
                        != key by {
                        if j > 0 {
                            assert(entries[j] == rest[j - 1]);
                        }
                    }
                },
                None => {
                    assert forall|j: int| 0 <= j < entries.len() implies (#[trigger] entries[j]).0
                        != key by {
                        if j > 0 {
                            assert(entries[j] == rest[j - 1]);
                        }
                    }
                },
            }
        }
    }
}

/// The value of an entry whose key no earlier entry has.
pub proof fn lemma_lookup_at(entries: Seq<(Seq<char>, JsonView)>, i: int)
    requires
        0 <= i < entries.len(),
        forall|j: int| 0 <= j < i ==> (#[trigger] entries[j]).0 != entries[i].0,
    ensures
        lookup(entries, entries[i].0) == Some(entries[i].1),
    decreases i,
{
    if i > 0 {
        let rest = entries.drop_first();
        assert(entries[0].0 != entries[i].0);
        assert(rest[i - 1] == entries[i]);
        assert forall|j: int| 0 <= j < i - 1 implies (#[trigger] rest[j]).0 != rest[i - 1].0 by {
            assert(rest[j] == entries[j + 1]);
        }
        lemma_lookup_at(rest, i - 1);
    }
}

/// Nothing stands under a key that no entry has.
pub proof fn lemma_lookup_nowhere(entries: Seq<(Seq<char>, JsonView)>, key: Seq<char>)
    requires
        forall|j: int| 0 <= j < entries.len() ==> (#[trigger] entries[j]).0 != key,
    ensures
        lookup(entries, key) is None,
{
    law_lookup_finds_the_first(entries, key);
    if let Some(value) = lookup(entries, key) {
        let i = choose|i: int|
            {
                &&& 0 <= i < entries.len()
                &&& #[trigger] entries[i] == (key, value)
                &&& forall|j: int| 0 <= j < i ==> (#[trigger] entries[j]).0 != key
            };
        assert(entries[i].0 == key);
    }
}

/// An object whose keys differ holds each entry under its key.
pub proof fn lemma_object_holds(entries: Seq<(Seq<char>, JsonView)>)
    requires
        forall|i: int, j: int|
            0 <= i < j < entries.len() ==> (#[trigger] entries[i]).0 != (#[trigger] entries[j]).0,
    ensures
        forall|i: int|
            0 <= i < entries.len() ==> JsonView::Object(entries).get(
                (#[trigger] entries[i]).0,
            ) == Some(entries[i].1),
{
    assert forall|i: int| 0 <= i < entries.len() implies JsonView::Object(entries).get(
        (#[trigger] entries[i]).0,
    ) == Some(entries[i].1) by {
        lemma_lookup_at(entries, i);
    }
}

/// What stands under a key in two lists of entries, one behind the other.
pub proof fn lemma_lookup_joined(
    front: Seq<(Seq<char>, JsonView)>,
    back: Seq<(Seq<char>, JsonView)>,
    key: Seq<char>,
)
    ensures
        lookup(front + back, key) == (match lookup(front, key) {
            Some(value) => Some(value),
            None => lookup(back, key),
        }),
    decreases front.len(),
{
    let all = front + back;
    if front.len() == 0 {
        assert(all =~= back);
    } else {
        assert(all[0] == front[0]);
        assert(all.drop_first() =~= front.drop_first() + back);
        lemma_lookup_joined(front.drop_first(), back, key);
    }
}

/// An object gives what stands under a key, and nothing else does. A text gives its
/// characters, an unsigned integer its value, an array its items, and nothing else
/// gives any of these.
pub proof fn law_values_give_what_they_are(value: JsonView, outer: Seq<char>, inner: Seq<char>)
    ensures
        value.get(outer) == (if value is Object {
            lookup(value->Object_0, outer)
        } else {
            None
        }),
        value.get_in(outer, inner) is Some ==> value.get(outer) is Some,
        value.get(outer) matches Some(found) ==> value.get_in(outer, inner) == found.get(inner),
        value.as_text() == (if value is Text {
            Some(value->Text_0)
        } else {
            None
        }),
        value.as_array() == (if value is Array {
            Some(value->Array_0)
        } else {
            None
        }),
        value.as_u64() == (if value is Number {
            value->Number_1
        } else {
            None
        }),
        text_in(Some(value)) == value.as_text(),
        text_in(None) is None,
{
}

/// The first of two values is taken where it is there, and the second otherwise.
pub proof fn law_the_first_value_wins<T>(first: Option<T>, second: Option<T>)
    ensures
        first is Some ==> or_else(first, second) == first,
        first is None ==> or_else(first, second) == second,
{
}

/// Setting an entry changes what stands under its key, and under no other. It adds an
/// entry, at the end, only where none had the key.
pub proof fn law_one_entry_is_set(
    entries: Seq<(Seq<char>, JsonView)>,
    key: Seq<char>,
    value: JsonView,
)
    ensures
        lookup(with_entry(entries, key, value), key) == Some(value),
        forall|other: Seq<char>|
            other != key ==> #[trigger] lookup(with_entry(entries, key, value), other) == lookup(
                entries,
                other,
            ),
        lookup(entries, key) is Some ==> with_entry(entries, key, value).len() == entries.len(),
        lookup(entries, key) is None ==> with_entry(entries, key, value) == entries.push(
            (key, value),
        ),
    decreases entries.len(),
{
    let set = with_entry(entries, key, value);
    if entries.len() == 0 {
        assert(set =~= entries.push((key, value)));
        assert(set.drop_first() =~= Seq::empty());
        assert forall|other: Seq<char>| other != key implies #[trigger] lookup(set, other)
            == lookup(entries, other) by {
            assert(lookup(set.drop_first(), other) is None);
        }
    } else if entries[0].0 == key {
        assert(set.drop_first() =~= entries.drop_first());
    } else {
        let rest = entries.drop_first();
        law_one_entry_is_set(rest, key, value);
        assert(set.drop_first() =~= with_entry(rest, key, value));
        assert forall|other: Seq<char>| other != key implies #[trigger] lookup(set, other)
            == lookup(entries, other) by {
            assert(lookup(with_entry(rest, key, value), other) == lookup(rest, other));
        }
        if lookup(entries, key) is None {
            assert(set =~= entries.push((key, value)));
        }
    }
}

/// Keys are ordered by the first character in which they differ, and a key stands
/// before every longer one that begins with it.
pub proof fn law_keys_are_in_order(
    common: Seq<char>,
    c: char,
    d: char,
    x: Seq<char>,
    y: Seq<char>,
)
    ensures
        c < d ==> key_before(common + seq![c] + x, common + seq![d] + y),
        c < d ==> !key_before(common + seq![d] + y, common + seq![c] + x),
        key_before(common, common + seq![c] + x),
        !key_before(common + seq![c] + x, common),
        !key_before(common, common),
    decreases common.len(),
{
    let a = common + seq![c] + x;
    let b = common + seq![d] + y;
    if common.len() > 0 {
        let rest = common.drop_first();
        law_keys_are_in_order(rest, c, d, x, y);
        assert(a.drop_first() =~= rest + seq![c] + x);
        assert(b.drop_first() =~= rest + seq![d] + y);
    }
}

proof fn lemma_one_key_is_first(a: Seq<char>, b: Seq<char>)
    ensures
        a == b || key_before(a, b) || key_before(b, a),
    decreases a.len(),
{
    if a.len() == 0 || b.len() == 0 {
        if a.len() == 0 && b.len() == 0 {
            assert(a =~= b);
        }
    } else if a[0] == b[0] {
        lemma_one_key_is_first(a.drop_first(), b.drop_first());
        if a.drop_first() == b.drop_first() {
            assert(seq![a[0]] + a.drop_first() =~= a);
            assert(seq![b[0]] + b.drop_first() =~= b);
        }
    }
}

proof fn lemma_order_goes_on(a: Seq<char>, b: Seq<char>, c: Seq<char>)
    requires
        key_before(a, b),
        key_before(b, c),
    ensures
        key_before(a, c),
    decreases a.len(),
{
    if a.len() > 0 && a[0] == b[0] && b[0] == c[0] {
        lemma_order_goes_on(a.drop_first(), b.drop_first(), c.drop_first());
    }
}

/// The entries stand in the order of their keys, and no key stands twice.
pub open spec fn is_sorted(entries: Seq<(Seq<char>, JsonView)>) -> bool {
    forall|i: int, j: int|
        0 <= i < j < entries.len() ==> key_before(
            (#[trigger] entries[i]).0,
            (#[trigger] entries[j]).0,
        )
}

proof fn lemma_sorted_insert(
    entries: Seq<(Seq<char>, JsonView)>,
    key: Seq<char>,
    value: JsonView,
)
    requires
        is_sorted(entries),
    ensures
        is_sorted(with_sorted(entries, key, value)),
        lookup(with_sorted(entries, key, value), key) == Some(value),
        forall|other: Seq<char>|
            other != key ==> #[trigger] lookup(with_sorted(entries, key, value), other) == lookup(
                entries,
                other,
            ),
        forall|i: int|
            #![trigger with_sorted(entries, key, value)[i]]
            0 <= i < with_sorted(entries, key, value).len() ==> with_sorted(
                entries,
                key,
                value,
            )[i].0 == key || exists|j: int|
                0 <= j < entries.len() && (#[trigger] entries[j]).0 == with_sorted(
                    entries,
                    key,
                    value,
                )[i].0,
    decreases entries.len(),
{
    let put = with_sorted(entries, key, value);
    if entries.len() == 0 || key_before(key, entries[0].0) {
        assert(put.drop_first() =~= entries);
        assert forall|i: int, j: int| 0 <= i < j < put.len() implies key_before(
            (#[trigger] put[i]).0,
            (#[trigger] put[j]).0,
        ) by {
            assert(put[j] == entries[j - 1]);
            if i > 0 {
                assert(put[i] == entries[i - 1]);
            } else if j > 1 {
                assert(key_before(entries[0].0, entries[j - 1].0));
                lemma_order_goes_on(key, entries[0].0, entries[j - 1].0);
            }
        }
        assert forall|i: int| #![trigger put[i]] 0 <= i < put.len() implies put[i].0 == key
            || exists|j: int| 0 <= j < entries.len() && (#[trigger] entries[j]).0 == put[i].0 by {
            if i > 0 {
                assert(entries[i - 1].0 == put[i].0);
            }
        }
    } else if entries[0].0 == key {
        assert(put.drop_first() =~= entries.drop_first());
        assert forall|i: int, j: int| 0 <= i < j < put.len() implies key_before(
            (#[trigger] put[i]).0,
            (#[trigger] put[j]).0,
        ) by {
            assert(put[i].0 == entries[i].0);
            assert(put[j].0 == entries[j].0);
        }
        assert forall|i: int| #![trigger put[i]] 0 <= i < put.len() implies put[i].0 == key
            || exists|j: int| 0 <= j < entries.len() && (#[trigger] entries[j]).0 == put[i].0 by {
            assert(entries[i].0 == put[i].0);
        }
    } else {
        let rest = entries.drop_first();
        assert(is_sorted(rest)) by {
            assert forall|i: int, j: int| 0 <= i < j < rest.len() implies key_before(
                (#[trigger] rest[i]).0,
                (#[trigger] rest[j]).0,
            ) by {
                assert(rest[i] == entries[i + 1]);
                assert(rest[j] == entries[j + 1]);
            }
        }
        lemma_sorted_insert(rest, key, value);
        lemma_one_key_is_first(key, entries[0].0);
        let tail = with_sorted(rest, key, value);
        assert(put.drop_first() =~= tail);
        assert forall|i: int, j: int| 0 <= i < j < put.len() implies key_before(
            (#[trigger] put[i]).0,
            (#[trigger] put[j]).0,
        ) by {
            assert(put[j] == tail[j - 1]);
            if i > 0 {
                assert(put[i] == tail[i - 1]);
            } else if tail[j - 1].0 != key {
                let k = choose|k: int| 0 <= k < rest.len() && (#[trigger] rest[k]).0 == tail[j
                    - 1].0;
                assert(rest[k] == entries[k + 1]);
                assert(key_before(entries[0].0, entries[k + 1].0));
            }
        }
        assert forall|other: Seq<char>| other != key implies #[trigger] lookup(put, other)
            == lookup(entries, other) by {
            assert(lookup(tail, other) == lookup(rest, other));
        }
        assert forall|i: int| #![trigger put[i]] 0 <= i < put.len() implies put[i].0 == key
            || exists|j: int| 0 <= j < entries.len() && (#[trigger] entries[j]).0 == put[i].0 by {
            if i == 0 {
                assert(entries[0].0 == put[i].0);
            } else {
                assert(put[i] == tail[i - 1]);
                if tail[i - 1].0 != key {
                    let k = choose|k: int| 0 <= k < rest.len() && (#[trigger] rest[k]).0 == tail[i
                        - 1].0;
                    assert(rest[k] == entries[k + 1]);
                }
            }
        }
    }
}

/// A map holds its entries in the order of their keys, each key once.
pub proof fn law_maps_are_sorted(entries: Seq<(Seq<char>, JsonView)>)
    ensures
        is_sorted(map_entries(entries)),
    decreases entries.len(),
{
    if entries.len() > 0 {
        law_maps_are_sorted(entries.drop_last());
        lemma_sorted_insert(
            map_entries(entries.drop_last()),
            entries.last().0,
            entries.last().1,
        );
    }
}

/// Under each key a map holds the value that was put there last.
pub proof fn law_maps_hold_the_last_value(
    entries: Seq<(Seq<char>, JsonView)>,
    key: Seq<char>,
    value: JsonView,
)
    ensures
        map_entries(Seq::empty()) == Seq::<(Seq<char>, JsonView)>::empty(),
        lookup(map_entries(entries.push((key, value))), key) == Some(value),
        forall|other: Seq<char>|
            other != key ==> #[trigger] lookup(map_entries(entries.push((key, value))), other)
                == lookup(map_entries(entries), other),
{
    let all = entries.push((key, value));
    assert(all.drop_last() =~= entries);
    law_maps_are_sorted(entries);
    lemma_sorted_insert(map_entries(entries), key, value);
}

/// What is written of a value is the value, but for the order of its objects' entries:
/// texts, numbers and the like are written as they are, arrays item by item, and
/// objects with all their entries.
pub proof fn law_values_are_written_as_they_are(tree: JsonView)
    ensures
        text_of(tree) == compact_text(stored(tree)),
        match tree {
            JsonView::Array(items) => stored(tree) matches JsonView::Array(written) && {
                &&& written.len() == items.len()
                &&& forall|i: int|
                    0 <= i < items.len() ==> #[trigger] written[i] == stored(items[i])
            },
            JsonView::Object(entries) => stored(tree) matches JsonView::Object(written)
                && exists|given: Seq<(Seq<char>, JsonView)>|
                {
                    &&& written == #[trigger] map_entries(given)
                    &&& given.len() == entries.len()
                    &&& forall|i: int|
                        0 <= i < given.len() ==> #[trigger] given[i] == (
                            entries[i].0,
                            stored(entries[i].1),
                        )
                },
            _ => stored(tree) == tree,
        },
{
    if let JsonView::Object(entries) = tree {
        let given = stored_entries(entries);
        assert(stored(tree) == JsonView::Object(map_entries(given)));
    }
}

/// No key stands twice.
pub open spec fn keys_differ(entries: Seq<(Seq<char>, JsonView)>) -> bool {
    forall|i: int, j: int|
        0 <= i < j < entries.len() ==> (#[trigger] entries[i]).0 != (#[trigger] entries[j]).0
}

/// The value is an object with these entries, and with no others.
pub open spec fn holds_exactly(value: JsonView, entries: Seq<(Seq<char>, JsonView)>) -> bool {
    &&& value is Object
    &&& value->Object_0.len() == entries.len()
    &&& forall|i: int|
        0 <= i < entries.len() ==> value.get((#[trigger] entries[i]).0) == Some(entries[i].1)
    &&& forall|key: Seq<char>|
        (#[trigger] value.get(key)) is Some ==> exists|i: int|
            0 <= i < entries.len() && (#[trigger] entries[i]).0 == key
}

/// An object whose keys differ holds exactly its entries.
pub proof fn lemma_holds_exactly(entries: Seq<(Seq<char>, JsonView)>)
    requires
        forall|i: int, j: int|
            0 <= i < j < entries.len() ==> (#[trigger] entries[i]).0 != (#[trigger] entries[j]).0,
    ensures
        holds_exactly(JsonView::Object(entries), entries),
{
    let value = JsonView::Object(entries);
    lemma_object_holds(entries);
    assert forall|key: Seq<char>| (#[trigger] value.get(key)) is Some implies exists|i: int|
        0 <= i < entries.len() && (#[trigger] entries[i]).0 == key by {
        if forall|j: int| 0 <= j < entries.len() ==> (#[trigger] entries[j]).0 != key {
            lemma_lookup_nowhere(entries, key);
        }
    }
}

/// What the view of a value shows is what the value holds.
pub proof fn law_views_leave_nothing_out(
    b: bool,
    text: String,
    number: JsonNumber,
    items: Vec<Json>,
    entries: Vec<(String, Json)>,
)
    ensures
        Json::Null.deep_view() == JsonView::Null,
        Json::Bool(b).deep_view() == JsonView::Bool(b),
        Json::Text(text).deep_view() == JsonView::Text(text@),
        Json::Number(number).deep_view() == JsonView::Number(number.text(), number.unsigned()),
        Json::Array(items).deep_view() == JsonView::Array(items.deep_view()),
        Json::Object(entries).deep_view() == JsonView::Object(entries.deep_view()),
{
    lemma_array_view(items);
    lemma_object_view(entries);
}

} // verus!
