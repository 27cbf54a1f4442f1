//! JSON documents: the library's own tree, its mathematical view, and the
//! calls into `serde_json` that read and write JSON text.

use serde_json::Value;
use vstd::prelude::*;

use crate::text::str_eq;

verus! {

/// A finite number that is not an integer of at most 64 bits, kept as the
/// shortest decimal text that denotes it. Values of this type come from
/// [`Json::from_value`] and [`Json::parse`] only.
#[derive(Debug)]
pub struct JsonFloat {
    text: String,
}

impl JsonFloat {
    /// The decimal text of the number.
    pub closed spec fn view(&self) -> Seq<char> {
        self.text@
    }

    /// The decimal text of the number.
    pub fn as_text(&self) -> (text: &str)
        ensures
            text@ == self@,
    {
        self.text.as_str()
    }
}

impl Clone for JsonFloat {
    fn clone(&self) -> (copy: Self)
        ensures
            copy@ == self@,
    {
        JsonFloat { text: self.text.clone() }
    }
}

/// A JSON value.
#[derive(Debug)]
pub enum Json {
    Null,
    Bool(bool),
    /// A non-negative integer.
    Unsigned(u64),
    /// An integer that may be negative.
    Signed(i64),
    Float(JsonFloat),
    Text(String),
    Array(Vec<Json>),
    Object(JsonObject),
}

/// The members of a JSON object in the order in which they were set. A later
/// member hides an earlier one of the same name.
#[derive(Debug)]
pub struct JsonObject {
    pub entries: Vec<(String, Json)>,
}

/// What a JSON value is: an object is a map from names to values.
#[verifier::ext_equal]
pub enum JsonView {
    Null,
    Bool(bool),
    Unsigned(u64),
    Negative(i64),
    Float(Seq<char>),
    Text(Seq<char>),
    Array(Seq<JsonView>),
    Object(Map<Seq<char>, JsonView>),
}

impl Json {
    pub open spec fn model(self) -> JsonView
        decreases self,
    {
        match self {
            Json::Null => JsonView::Null,
            Json::Bool(b) => JsonView::Bool(b),
            Json::Unsigned(n) => JsonView::Unsigned(n),
            Json::Signed(n) => if n < 0 {
                JsonView::Negative(n)
            } else {
                JsonView::Unsigned(n as u64)
            },
            Json::Float(f) => JsonView::Float(f.view()),
            Json::Text(s) => JsonView::Text(s@),
            Json::Array(items) => JsonView::Array(array_model(items@)),
            Json::Object(object) => JsonView::Object(entries_model(object.entries@)),
        }
    }
}

impl View for Json {
    type V = JsonView;

    open spec fn view(&self) -> JsonView {
        self.model()
    }
}

impl DeepView for Json {
    type V = JsonView;

    open spec fn deep_view(&self) -> JsonView {
        self.model()
    }
}

impl View for JsonObject {
    type V = Map<Seq<char>, JsonView>;

    open spec fn view(&self) -> Map<Seq<char>, JsonView> {
        entries_model(self.entries@)
    }
}

impl DeepView for JsonObject {
    type V = Map<Seq<char>, JsonView>;

    open spec fn deep_view(&self) -> Map<Seq<char>, JsonView> {
        entries_model(self.entries@)
    }
}

/// The values of an array, in order.
pub open spec fn array_model(items: Seq<Json>) -> Seq<JsonView>
    decreases items,
{
    Seq::new(
        items.len(),
        |i: int|
            if 0 <= i < items.len() {
                items[i].model()
            } else {
                JsonView::Null
            },
    )
}

/// The map that results from setting the members one after the other.
pub open spec fn entries_model(entries: Seq<(String, Json)>) -> Map<Seq<char>, JsonView>
    decreases entries,
{
    if entries.len() == 0 {
        Map::empty()
    } else {
        entries_model(entries.drop_last()).insert(entries.last().0@, entries.last().1.model())
    }
}

/// An object with at least one member has a name in its domain.
proof fn lemma_entries_nonempty(entries: Seq<(String, Json)>)
    requires
        entries.len() > 0,
    ensures
        entries_model(entries).dom().contains(entries.last().0@),
{
}

/// The names of an object are the names of its members.
proof fn lemma_entries_dom(entries: Seq<(String, Json)>, key: Seq<char>)
    ensures
        entries_model(entries).dom().contains(key) <==> exists|i: int|
            0 <= i < entries.len() && (#[trigger] entries[i]).0@ == key,
    decreases entries.len(),
{
    if entries.len() > 0 {
        let rest = entries.drop_last();
        lemma_entries_dom(rest, key);
        if entries_model(rest).dom().contains(key) {
            let i = choose|i: int| 0 <= i < rest.len() && (#[trigger] rest[i]).0@ == key;
            assert(entries[i].0@ == key);
        }
        if exists|i: int| 0 <= i < entries.len() && (#[trigger] entries[i]).0@ == key {
            let i = choose|i: int| 0 <= i < entries.len() && (#[trigger] entries[i]).0@ == key;
            if i < rest.len() {
                assert(rest[i].0@ == key);
            }
        }
    }
}

impl JsonObject {
    /// An object without members.
    pub fn new() -> (object: Self)
        ensures
            object@ == Map::<Seq<char>, JsonView>::empty(),
    {
        JsonObject { entries: Vec::new() }
    }

    /// Whether the object has no member.
    pub fn is_empty(&self) -> (empty: bool)
        ensures
            empty == (self@ == Map::<Seq<char>, JsonView>::empty()),
    {
        proof {
            if self.entries@.len() > 0 {
                lemma_entries_nonempty(self.entries@);
                assert(!Map::<Seq<char>, JsonView>::empty().dom().contains(self.entries@.last().0@));
            }
        }
        self.entries.len() == 0
    }

    /// Set the member `key` to `value`.
    pub fn insert(&mut self, key: String, value: Json)
        ensures
            final(self)@ == old(self)@.insert(key@, value@),
    {
        let ghost before = self.entries@;
        self.entries.push((key, value));
        assert(self.entries@.drop_last() =~= before);
    }

    /// The object with the member `key` set to `value`.
    pub fn with(self, key: &str, value: Json) -> (object: JsonObject)
        ensures
            object@ == self@.insert(key@, value@),
    {
        let mut object = self;
        object.insert(key.to_owned(), value);
        object
    }

    /// The value of the member `key`.
    pub fn get(&self, key: &str) -> (found: Option<&Json>)
        ensures
            match found {
                Some(value) => self@.dom().contains(key@) && self@[key@] == value@,
                None => !self@.dom().contains(key@),
            },
    {
        let mut i: usize = self.entries.len();
        assert(self.entries@.take(i as int) =~= self.entries@);
        while i > 0
            invariant
                i <= self.entries@.len(),
                entries_model(self.entries@.take(i as int)).dom().contains(key@) <==> self@.dom().contains(key@),
                self@.dom().contains(key@) ==> entries_model(self.entries@.take(i as int))[key@] == self@[key@],
            decreases i,
        {
            let ghost prefix = self.entries@.take(i as int);
            i -= 1;
            assert(prefix.drop_last() =~= self.entries@.take(i as int));
            if str_eq(self.entries[i].0.as_str(), key) {
                return Some(&self.entries[i].1);
            }
        }
        None
    }
}

impl Clone for JsonObject {
    fn clone(&self) -> (copy: Self)
        ensures
            copy@ == self@,
        decreases self,
    {
        let mut entries: Vec<(String, Json)> = Vec::new();
        let mut i: usize = 0;
        assert(self.entries@.take(0) =~= Seq::empty());
        while i < self.entries.len()
            invariant
                i <= self.entries@.len(),
                entries_model(entries@) == entries_model(self.entries@.take(i as int)),
            decreases self.entries@.len() - i,
        {
            let ghost before = entries@;
            assert(decreases_to!(self => self.entries@[i as int].1));
            let value = self.entries[i].1.clone();
            entries.push((self.entries[i].0.clone(), value));
            assert(entries@.drop_last() =~= before);
            assert(self.entries@.take(i + 1).drop_last() =~= self.entries@.take(i as int));
            i += 1;
        }
        assert(self.entries@.take(i as int) =~= self.entries@);
        JsonObject { entries }
    }
}

/// A copy of an array's values.
fn clone_items(items: &Vec<Json>) -> (copies: Vec<Json>)
    ensures
        array_model(copies@) == array_model(items@),
    decreases items,
{
    let mut copies: Vec<Json> = Vec::new();
    let mut i: usize = 0;
    while i < items.len()
        invariant
            i <= items@.len(),
            array_model(copies@) == array_model(items@.take(i as int)),
        decreases items@.len() - i,
    {
        let ghost before = copies@;
        copies.push(items[i].clone());
        assert(array_model(copies@) =~= array_model(before).push(items@[i as int]@));
        assert(array_model(items@.take(i + 1)) =~= array_model(items@.take(i as int)).push(
            items@[i as int]@,
        ));
        i += 1;
    }
    assert(items@.take(i as int) =~= items@);
    copies
}

impl Clone for Json {
    fn clone(&self) -> (copy: Self)
        ensures
            copy@ == self@,
        decreases self,
    {
        match self {
            Json::Null => Json::Null,
            Json::Bool(b) => Json::Bool(*b),
            Json::Unsigned(n) => Json::Unsigned(*n),
            Json::Signed(n) => Json::Signed(*n),
            Json::Float(f) => Json::Float(f.clone()),
            Json::Text(s) => Json::Text(s.clone()),
            Json::Array(items) => Json::Array(clone_items(items)),
            Json::Object(object) => Json::Object(object.clone()),
        }
    }
}

// ---------------------------------------------------------------------------
// serde_json
// ---------------------------------------------------------------------------

/// A JSON document of `serde_json`, carried through without being looked into.
#[verifier::external_type_specification]
#[verifier::external_body]
pub struct ExValue(serde_json::Value);

/// What a `serde_json` document holds. Its objects are maps, so the order of
/// their members is no part of it.
pub uninterp spec fn value_model(value: Value) -> JsonView;

/// What `serde_json::from_str` makes of a text: the document, or the message of
/// the error.
pub uninterp spec fn parsed(text: Seq<char>) -> Result<JsonView, Seq<char>>;

/// The compact text that `serde_json` writes for a value. The members of an
/// object are written in the order of their names.
pub uninterp spec fn rendered(value: JsonView) -> Seq<char>;

/// How deep arrays and objects may be nested in a text that `serde_json` reads.
pub const MAX_DEPTH: u32 = 127;

/// The name of a member that `serde_json` keeps for itself: where an object starts
/// with it, the parser reads what the member's text denotes in place of the object.
pub const RESERVED_MEMBER: &'static str = "$serde_json::private::RawValue";

/// Whether a value has no floating-point numbers and no member of the reserved name,
/// and its arrays and objects are nested at most `depth` deep.
pub open spec fn is_plain(value: JsonView, depth: nat) -> bool
    decreases depth,
{
    match value {
        JsonView::Float(_) => false,
        JsonView::Array(items) => depth > 0 && forall|i: int|
            0 <= i < items.len() ==> is_plain(#[trigger] items[i], (depth - 1) as nat),
        JsonView::Object(members) => depth > 0 && !members.dom().contains(RESERVED_MEMBER@) && forall|
            key: Seq<char>,
        |
            members.dom().contains(key) ==> is_plain(#[trigger] members[key], (depth - 1) as nat),
        _ => true,
    }
}

/// Whether a text denotes a value.
pub open spec fn reads_as(text: Seq<char>, value: JsonView) -> bool {
    parsed(text) is Ok && parsed(text)->Ok_0 == value
}

/// Whether the text of a floating-point number is that of a zero.
pub open spec fn is_zero(text: Seq<char>) -> bool {
    text == "0.0"@ || text == "-0.0"@
}

/// Whether two values are the same, where floating-point zeros are the same whatever
/// their sign.
pub open spec fn same_value(a: JsonView, b: JsonView) -> bool
    decreases a,
{
    match (a, b) {
        (JsonView::Float(x), JsonView::Float(y)) => x == y || (is_zero(x) && is_zero(y)),
        (JsonView::Array(x), JsonView::Array(y)) => x.len() == y.len() && forall|i: int|
            0 <= i < x.len() ==> same_value(#[trigger] x[i], y[i]),
        (JsonView::Object(x), JsonView::Object(y)) => x.dom() == y.dom() && forall|key: Seq<char>|
            x.dom().contains(key) ==> same_value(#[trigger] x[key], y[key]),
        _ => a == b,
    }
}

/// Whether a value has no floating-point numbers.
pub open spec fn has_no_floats(value: JsonView) -> bool
    decreases value,
{
    match value {
        JsonView::Float(_) => false,
        JsonView::Array(items) => forall|i: int| 0 <= i < items.len() ==> has_no_floats(#[trigger] items[i]),
        JsonView::Object(members) => forall|key: Seq<char>|
            members.dom().contains(key) ==> has_no_floats(#[trigger] members[key]),
        _ => true,
    }
}

/// Floating-point numbers are the same if their texts are, and the two zeros are the
/// same; a text denotes the value that it is parsed to.
pub proof fn law_zeros_are_the_same(a: Seq<char>, b: Seq<char>, text: Seq<char>, value: JsonView)
    ensures
        same_value(JsonView::Float(a), JsonView::Float(b)) <==> a == b || (a == "0.0"@ && b == "-0.0"@) || (a
            == "-0.0"@ && b == "0.0"@),
        reads_as(text, value) <==> parsed(text) == Ok::<JsonView, Seq<char>>(value),
{
}

/// A plain value is a scalar that is no floating-point number, or has plain values of one
/// level less for its items or members, none of them of the reserved name.
pub proof fn law_plain_values(items: Seq<JsonView>, members: Map<Seq<char>, JsonView>, text: Seq<char>, depth: nat)
    ensures
        !is_plain(JsonView::Float(text), depth),
        is_plain(JsonView::Null, depth),
        is_plain(JsonView::Text(text), depth),
        !is_plain(JsonView::Array(items), 0),
        !is_plain(JsonView::Object(members), 0),
        is_plain(JsonView::Array(items), depth + 1) <==> forall|i: int|
            0 <= i < items.len() ==> is_plain(#[trigger] items[i], depth),
        is_plain(JsonView::Object(members), depth + 1) <==> {
            &&& !members.dom().contains("$serde_json::private::RawValue"@)
            &&& forall|key: Seq<char>| members.dom().contains(key) ==> is_plain(#[trigger] members[key], depth)
        },
{
    let below: nat = depth + 1;
    assert((below - 1) as nat == depth);
    let array = JsonView::Array(items);
    if is_plain(array, below) {
        reveal_with_fuel(is_plain, 2);
        assert forall|i: int| 0 <= i < items.len() implies is_plain(#[trigger] items[i], depth) by {
            assert(array->Array_0[i] == items[i]);
        }
    }
    if forall|i: int| 0 <= i < items.len() ==> is_plain(#[trigger] items[i], depth) {
        assert forall|i: int| 0 <= i < items.len() implies is_plain(#[trigger] items[i], (below - 1) as nat) by {
            assert(is_plain(items[i], depth));
        }
        assert(is_plain(array, below));
    }
}

/// Equal values are the same, and values that are the same are equal unless they have
/// floating-point numbers.
pub proof fn law_same_values_are_equal(a: JsonView, b: JsonView)
    ensures
        a == b ==> same_value(a, b),
        same_value(a, b) && has_no_floats(a) ==> a == b,
    decreases a,
{
    match (a, b) {
        (JsonView::Array(x), JsonView::Array(y)) => {
            assert forall|i: int| 0 <= i < x.len() && x.len() == y.len() implies (#[trigger] x[i] == y[i] ==> same_value(
                x[i],
                y[i],
            )) && (same_value(x[i], y[i]) && has_no_floats(x[i]) ==> x[i] == y[i]) by {
                law_same_values_are_equal(x[i], y[i]);
            }
            if same_value(a, b) && has_no_floats(a) {
                assert forall|i: int| 0 <= i < x.len() implies x[i] == y[i] by {
                    assert(same_value(x[i], y[i]));
                    assert(has_no_floats(x[i]));
                }
                assert(x =~= y);
            }
        },
        (JsonView::Object(x), JsonView::Object(y)) => {
            assert forall|key: Seq<char>| x.dom().contains(key) implies (#[trigger] x[key] == y[key] ==> same_value(
                x[key],
                y[key],
            )) && (same_value(x[key], y[key]) && has_no_floats(x[key]) ==> x[key] == y[key]) by {
                law_same_values_are_equal(x[key], y[key]);
            }
            if same_value(a, b) && has_no_floats(a) {
                assert forall|key: Seq<char>| x.dom().contains(key) implies x[key] == y[key] by {
                    assert(same_value(x[key], y[key]));
                    assert(has_no_floats(x[key]));
                }
                assert(x =~= y);
            }
        },
        _ => {},
    }
}

/// It does not matter which of two values comes first.
pub proof fn lemma_same_value_symmetric(a: JsonView, b: JsonView)
    requires
        same_value(a, b),
    ensures
        same_value(b, a),
    decreases a,
{
    match (a, b) {
        (JsonView::Array(x), JsonView::Array(y)) => {
            assert forall|i: int| 0 <= i < y.len() implies same_value(#[trigger] y[i], x[i]) by {
                assert(same_value(x[i], y[i]));
                lemma_same_value_symmetric(x[i], y[i]);
            }
        },
        (JsonView::Object(x), JsonView::Object(y)) => {
            assert forall|key: Seq<char>| y.dom().contains(key) implies same_value(#[trigger] y[key], x[key]) by {
                assert(same_value(x[key], y[key]));
                lemma_same_value_symmetric(x[key], y[key]);
            }
        },
        _ => {},
    }
}

/// Takes a `serde_json::Value` apart: the tree returned holds what the document
/// holds.
#[verifier::external_body]
fn json_of_value(value: Value) -> (json: Json)
    ensures
        json@ == value_model(value),
{
    match value {
        Value::Null => Json::Null,
        Value::Bool(b) => Json::Bool(b),
        Value::Number(n) => match (n.as_u64(), n.as_i64()) {
            (Some(u), _) => Json::Unsigned(u),
            (None, Some(i)) => Json::Signed(i),
            (None, None) => Json::Float(JsonFloat { text: n.to_string() }),
        },
        Value::String(s) => Json::Text(s),
        Value::Array(items) => Json::Array(items.into_iter().map(json_of_value).collect()),
        Value::Object(map) => {
            Json::Object(JsonObject { entries: map.into_iter().map(|(k, v)| (k, json_of_value(v))).collect() })
        },
    }
}

/// Builds the `serde_json::Value` that holds what the tree holds: members of an
/// object are set one after the other, so that the last of a name stays.
#[verifier::external_body]
fn value_of_json(json: &Json) -> (value: Value)
    ensures
        value_model(value) == json@,
{
    match json {
        Json::Null => Value::Null,
        Json::Bool(b) => Value::Bool(*b),
        Json::Unsigned(n) => Value::from(*n),
        Json::Signed(n) => Value::from(*n),
        Json::Float(n) => Value::from(n.text.parse().ok().and_then(serde_json::Number::from_f64)),
        Json::Text(s) => Value::String(s.clone()),
        Json::Array(items) => Value::Array(items.iter().map(value_of_json).collect()),
        Json::Object(object) => {
            object.entries.iter().map(|(k, v)| (k.clone(), value_of_json(v))).collect()
        },
    }
}

/// Calls `serde_json::from_str`. Which texts are accepted, what document they
/// denote and how an error reads is named by [`parsed`].
#[verifier::external_body]
fn value_from_text(text: &str) -> (result: Result<Value, String>)
    ensures
        match result {
            Ok(value) => parsed(text@) == Ok::<JsonView, Seq<char>>(value_model(value)),
            Err(message) => parsed(text@) == Err::<JsonView, Seq<char>>(message@),
        },
{
    serde_json::from_str(text).map_err(|e| e.to_string())
}

/// Writes a document with the `Display` impl of `serde_json::Value`, which gives
/// the compact form. It depends on what the document holds alone. A document is
/// read back from its text, unless it is nested too deep for the parser, has
/// floating-point numbers, whose last digit the parser may miss, or has a member
/// of the reserved name.
#[verifier::external_body]
fn value_text(value: &Value) -> (text: String)
    ensures
        text@ == rendered(value_model(*value)),
        is_plain(value_model(*value), MAX_DEPTH as nat) ==> reads_as(text@, value_model(*value)),
{
    value.to_string()
}

/// Compares two documents with the `PartialEq` impl of `serde_json::Value`, which
/// goes by what they hold. Two that differ are equal only where a floating-point
/// zero differs from another in its sign.
#[verifier::external_body]
fn value_eq(a: &Value, b: &Value) -> (same: bool)
    ensures
        same == same_value(value_model(*a), value_model(*b)),
{
    a == b
}

impl Json {
    /// The tree that holds what a `serde_json` document holds.
    pub fn from_value(value: Value) -> (json: Json)
        ensures
            json@ == value_model(value),
    {
        json_of_value(value)
    }

    /// The `serde_json` document that holds what this tree holds.
    pub fn to_value(&self) -> (value: Value)
        ensures
            value_model(value) == self@,
    {
        value_of_json(self)
    }

    /// Read JSON text. The error is the parser's message.
    pub fn parse(text: &str) -> (result: Result<Json, String>)
        ensures
            match result {
                Ok(json) => parsed(text@) == Ok::<JsonView, Seq<char>>(json@),
                Err(message) => parsed(text@) == Err::<JsonView, Seq<char>>(message@),
            },
    {
        match value_from_text(text) {
            Ok(value) => Ok(json_of_value(value)),
            Err(message) => Err(message),
        }
    }

    /// Write the value as compact JSON text, from which it is read back unless it
    /// is nested too deep or has floating-point numbers.
    pub fn to_text(&self) -> (text: String)
        ensures
            text@ == rendered(self@),
            is_plain(self@, MAX_DEPTH as nat) ==> reads_as(text@, self@),
    {
        value_text(&value_of_json(self))
    }

    /// Whether two values are equal as JSON documents.
    pub fn same(&self, other: &Json) -> (same: bool)
        ensures
            same == same_value(self@, other@),
    {
        value_eq(&value_of_json(self), &value_of_json(other))
    }

    /// A JSON string.
    pub fn text(s: &str) -> (json: Json)
        ensures
            json@ == JsonView::Text(s@),
    {
        Json::Text(s.to_owned())
    }

    /// A JSON array.
    pub fn array(items: Vec<Json>) -> (json: Json)
        ensures
            json@ == JsonView::Array(items.deep_view()),
    {
        assert(array_model(items@) =~= items.deep_view());
        Json::Array(items)
    }

    /// The member `key` of an object, `None` for every other value.
    pub fn get(&self, key: &str) -> (found: Option<&Json>)
        ensures
            match found {
                Some(value) => member(self@, key@) == Some(value@),
                None => member(self@, key@) is None,
            },
    {
        match self {
            Json::Object(object) => object.get(key),
            _ => None,
        }
    }

    /// The characters of a JSON string, `None` for every other value.
    pub fn as_str(&self) -> (found: Option<&str>)
        ensures
            match found {
                Some(s) => self@ == JsonView::Text(s@),
                None => !(self@ is Text),
            },
    {
        match self {
            Json::Text(s) => Some(s.as_str()),
            _ => None,
        }
    }
}

/// The member `key` of a value, if it is an object that has one.
pub open spec fn member(value: JsonView, key: Seq<char>) -> Option<JsonView> {
    match value {
        JsonView::Object(members) => if members.dom().contains(key) {
            Some(members[key])
        } else {
            None
        },
        _ => None,
    }
}

/// The member of an object is the value that was set last under its name, whatever else
/// was set, and nothing but an object has members.
pub proof fn law_members(members: Map<Seq<char>, JsonView>, key: Seq<char>, other: Seq<char>, value: JsonView)
    requires
        other != key,
    ensures
        member(JsonView::Object(members.insert(key, value)), key) == Some(value),
        member(JsonView::Object(members.insert(key, value)), other) == member(JsonView::Object(members), other),
        !members.dom().contains(key) ==> member(JsonView::Object(members), key) is None,
        !(value is Object) ==> member(value, key) is None,
{
}

/// A value's model is of the value's kind and holds what the value holds; an integer is
/// the same whichever way it is kept.
pub proof fn law_value_model(b: bool, n: u64, i: i64, text: String, items: Vec<Json>, object: JsonObject)
    ensures
        Json::Null@ == JsonView::Null,
        Json::Bool(b)@ == JsonView::Bool(b),
        Json::Unsigned(n)@ == JsonView::Unsigned(n),
        i < 0 ==> Json::Signed(i)@ == JsonView::Negative(i),
        i >= 0 ==> Json::Signed(i)@ == JsonView::Unsigned(i as u64),
        Json::Text(text)@ == JsonView::Text(text@),
        Json::Array(items)@ == JsonView::Array(items.deep_view()),
        Json::Object(object)@ == JsonView::Object(object@),
{
    assert(array_model(items@) =~= items.deep_view());
}

} // verus!
