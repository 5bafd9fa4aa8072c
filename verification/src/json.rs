use serde_json::Value;
use vstd::prelude::*;

verus! {

/// A JSON number as it was read: a non-negative integer, a negative
/// integer, or any other number, kept in the text it was written as.
#[derive(Debug, PartialEq)]
pub enum JsonNumber {
    PosInt(u64),
    NegInt(i64),
    Float(String),
}

/// The mathematical model of a [`JsonNumber`].
pub enum NumberV {
    PosInt(u64),
    NegInt(i64),
    Float(Seq<char>),
}

/// A JSON value. An object keeps its members in order; a lookup by key
/// finds the first member with that key.
#[derive(Debug, PartialEq)]
pub enum Json {
    Null,
    Bool(bool),
    Number(JsonNumber),
    Str(String),
    Array(Vec<Json>),
    Object(Vec<(String, Json)>),
}

/// The mathematical model of a [`Json`] value.
pub enum JsonV {
    Null,
    Bool(bool),
    Number(NumberV),
    Str(Seq<char>),
    Array(Seq<JsonV>),
    Object(Seq<(Seq<char>, JsonV)>),
}

impl View for JsonNumber {
    type V = NumberV;

    open spec fn view(&self) -> NumberV {
        match self {
            JsonNumber::PosInt(n) => NumberV::PosInt(*n),
            JsonNumber::NegInt(n) => NumberV::NegInt(*n),
            JsonNumber::Float(s) => NumberV::Float(s@),
        }
    }
}

pub open spec fn json_view(j: Json) -> JsonV
    decreases j,
{
    match j {
        Json::Null => JsonV::Null,
        Json::Bool(b) => JsonV::Bool(b),
        Json::Number(n) => JsonV::Number(n@),
        Json::Str(s) => JsonV::Str(s@),
        Json::Array(items) => JsonV::Array(items_view(items@)),
        Json::Object(entries) => JsonV::Object(entries_view(entries@)),
    }
}

pub open spec fn items_view(s: Seq<Json>) -> Seq<JsonV>
    decreases s,
{
    if s.len() == 0 {
        Seq::empty()
    } else {
        items_view(s.drop_last()).push(json_view(s.last()))
    }
}

pub open spec fn entries_view(s: Seq<(String, Json)>) -> Seq<(Seq<char>, JsonV)>
    decreases s,
{
    if s.len() == 0 {
        Seq::empty()
    } else {
        entries_view(s.drop_last()).push((s.last().0@, json_view(s.last().1)))
    }
}

impl View for Json {
    type V = JsonV;

    open spec fn view(&self) -> JsonV {
        json_view(*self)
    }
}


pub open spec fn opt_view(o: Option<&Json>) -> Option<JsonV> {
    match o {
        Some(x) => Some(x@),
        None => None,
    }
}

pub open spec fn opt_json_view(o: Option<Json>) -> Option<JsonV> {
    match o {
        Some(x) => Some(x@),
        None => None,
    }
}

pub open spec fn opt_text_view(o: Option<&str>) -> Option<Seq<char>> {
    match o {
        Some(x) => Some(x@),
        None => None,
    }
}

/// The value of the first member of `es` whose key is `key`.
pub open spec fn lookup(es: Seq<(Seq<char>, JsonV)>, key: Seq<char>) -> Option<JsonV>
    decreases es.len(),
{
    if es.len() == 0 {
        None
    } else if es[0].0 == key {
        Some(es[0].1)
    } else {
        lookup(es.drop_first(), key)
    }
}

impl JsonV {
    /// The member `key` of an object; `None` for anything else.
    pub open spec fn get(self, key: Seq<char>) -> Option<JsonV> {
        match self {
            JsonV::Object(es) => lookup(es, key),
            _ => None,
        }
    }

    pub open spec fn as_str(self) -> Option<Seq<char>> {
        match self {
            JsonV::Str(s) => Some(s),
            _ => None,
        }
    }

    pub open spec fn as_array(self) -> Option<Seq<JsonV>> {
        match self {
            JsonV::Array(items) => Some(items),
            _ => None,
        }
    }

    /// The integer held by a number that fits in an `i64`.
    pub open spec fn as_i64(self) -> Option<i64> {
        match self {
            JsonV::Number(NumberV::PosInt(n)) => if n <= i64::MAX {
                Some(n as i64)
            } else {
                None
            },
            JsonV::Number(NumberV::NegInt(n)) => Some(n),
            _ => None,
        }
    }
}

pub broadcast proof fn lemma_items_view(s: Seq<Json>)
    ensures
        #[trigger] items_view(s).len() == s.len(),
        forall|i: int| 0 <= i < s.len() ==> #[trigger] items_view(s)[i] == json_view(s[i]),
    decreases s.len(),
{
    if s.len() > 0 {
        lemma_items_view(s.drop_last());
        assert forall|i: int| 0 <= i < s.len() implies #[trigger] items_view(s)[i] == json_view(
            s[i],
        ) by {
            if i < s.len() - 1 {
                assert(s[i] == s.drop_last()[i]);
            }
        }
    }
}

pub broadcast proof fn lemma_entries_view(s: Seq<(String, Json)>)
    ensures
        #[trigger] entries_view(s).len() == s.len(),
        forall|i: int|
            0 <= i < s.len() ==> #[trigger] entries_view(s)[i] == (s[i].0@, json_view(s[i].1)),
    decreases s.len(),
{
    if s.len() > 0 {
        lemma_entries_view(s.drop_last());
        assert forall|i: int| 0 <= i < s.len() implies #[trigger] entries_view(s)[i] == (
            s[i].0@,
            json_view(s[i].1),
        ) by {
            if i < s.len() - 1 {
                assert(s[i] == s.drop_last()[i]);
            }
        }
    }
}

pub broadcast group group_json_view {
    lemma_items_view,
    lemma_entries_view,
}

impl Clone for JsonNumber {
    fn clone(&self) -> (r: Self)
        ensures
            r@ == self@,
    {
        match self {
            JsonNumber::PosInt(n) => JsonNumber::PosInt(*n),
            JsonNumber::NegInt(n) => JsonNumber::NegInt(*n),
            JsonNumber::Float(s) => JsonNumber::Float(s.clone()),
        }
    }
}

impl Clone for Json {
    fn clone(&self) -> (r: Self)
        ensures
            r@ == self@,
        decreases self,
    {
        broadcast use group_json_view;

        match self {
            Json::Null => Json::Null,
            Json::Bool(b) => Json::Bool(*b),
            Json::Number(n) => Json::Number(n.clone()),
            Json::Str(s) => Json::Str(s.clone()),
            Json::Array(items) => {
                let mut out: Vec<Json> = Vec::new();
                for i in 0..items.len()
                    invariant
                        *self == Json::Array(*items),
                        out@.len() == i,
                        forall|k: int| 0 <= k < i ==> json_view(#[trigger] out@[k]) == json_view(items@[k]),
                {
                    assert(decreases_to!(*self => (*self)->Array_0));
                    assert(decreases_to!(*items => items[i as int]));
                    out.push(items[i].clone());
                }
                assert(items_view(out@) =~= items_view(items@));
                Json::Array(out)
            },
            Json::Object(entries) => {
                let mut out: Vec<(String, Json)> = Vec::new();
                for i in 0..entries.len()
                    invariant
                        *self == Json::Object(*entries),
                        out@.len() == i,
                        forall|k: int|
                            0 <= k < i ==> (#[trigger] out@[k]).0@ == entries@[k].0@ && json_view(
                                out@[k].1,
                            ) == json_view(entries@[k].1),
                {
                    assert(decreases_to!(*self => (*self)->Object_0));
                    assert(decreases_to!(*entries => entries[i as int]));
                    assert(decreases_to!(entries[i as int] => entries[i as int].1));
                    let v = entries[i].1.clone();
                    out.push((entries[i].0.clone(), v));
                }
                proof {
                    lemma_entries_view(out@);
                    lemma_entries_view(entries@);
                    assert forall|k: int| 0 <= k < out@.len() implies #[trigger] entries_view(
                        out@,
                    )[k] == entries_view(entries@)[k] by {
                        assert(out@[k].0@ == entries@[k].0@);
                    }
                }
                assert(entries_view(out@) =~= entries_view(entries@));
                Json::Object(out)
            },
        }
    }
}

impl Json {
    /// The member `key` of an object, as `serde_json`'s `Value::get` gives it.
    pub fn get(&self, key: &str) -> (r: Option<&Json>)
        ensures
            opt_view(r) == self@.get(key@),
    {
        match self {
            Json::Object(entries) => {
                proof {
                    lemma_entries_view(entries@);
                }
                let ghost es = entries_view(entries@);
                assert(es.skip(0) =~= es);
                let mut i: usize = 0;
                while i < entries.len()
                    invariant
                        i <= entries.len(),
                        es == entries_view(entries@),
                        self@.get(key@) == lookup(es.skip(i as int), key@),
                    decreases entries.len() - i,
                {
                    proof {
                        lemma_entries_view(entries@);
                    }
                    assert(es.skip(i as int).drop_first() =~= es.skip(i + 1));
                    assert(es.skip(i as int)[0] == (entries@[i as int].0@, json_view(entries@[i as int].1)));
                    if crate::text::text_eq(entries[i].0.as_str(), key) {
                        return Some(&entries[i].1);
                    }
                    i += 1;
                }
                None
            },
            _ => None,
        }
    }

    pub fn as_str(&self) -> (r: Option<&str>)
        ensures
            opt_text_view(r) == self@.as_str(),
    {
        match self {
            Json::Str(s) => Some(s.as_str()),
            _ => None,
        }
    }

    pub fn as_array(&self) -> (r: Option<&Vec<Json>>)
        ensures
            match r {
                Some(v) => self@.as_array() == Some(items_view(v@)),
                None => self@.as_array() is None,
            },
    {
        match self {
            Json::Array(items) => Some(items),
            _ => None,
        }
    }

    pub fn as_i64(&self) -> (r: Option<i64>)
        ensures
            r == self@.as_i64(),
    {
        match self {
            Json::Number(JsonNumber::PosInt(n)) => {
                if *n <= 9223372036854775807u64 {
                    Some(*n as i64)
                } else {
                    None
                }
            },
            Json::Number(JsonNumber::NegInt(n)) => Some(*n),
            _ => None,
        }
    }
}


/// The value at `key`, or `default` where there is none.
pub open spec fn get_or(j: JsonV, key: Seq<char>, default: JsonV) -> JsonV {
    match j.get(key) {
        Some(v) => v,
        None => default,
    }
}

/// The text at `key`, where the member exists and is a string.
pub open spec fn get_str(j: JsonV, key: Seq<char>) -> Option<Seq<char>> {
    match j.get(key) {
        Some(v) => v.as_str(),
        None => None,
    }
}

/// The value at the pointer token `"0"`: the member `"0"` of an object or
/// the first element of an array.
pub open spec fn at_zero(j: JsonV) -> Option<JsonV> {
    match j {
        JsonV::Object(es) => lookup(es, "0"@),
        JsonV::Array(items) => if items.len() > 0 {
            Some(items[0])
        } else {
            None
        },
        _ => None,
    }
}

/// The value at the two-step pointer `/k1/k2` (neither key an array index).
pub open spec fn path2(j: JsonV, k1: Seq<char>, k2: Seq<char>) -> Option<JsonV> {
    match j.get(k1) {
        Some(v) => v.get(k2),
        None => None,
    }
}

pub open spec fn str_v(s: Seq<char>) -> JsonV {
    JsonV::Str(s)
}

pub open spec fn empty_object() -> JsonV {
    JsonV::Object(Seq::empty())
}

/// The number `serde_json` makes of an `i64`.
pub open spec fn int_v(n: i64) -> JsonV {
    if n >= 0 {
        JsonV::Number(NumberV::PosInt(n as u64))
    } else {
        JsonV::Number(NumberV::NegInt(n))
    }
}

pub open spec fn opt_or(o: Option<JsonV>, default: JsonV) -> JsonV {
    match o {
        Some(v) => v,
        None => default,
    }
}

/// `es` with the member `(key, v)` appended when `o` is `Some(v)`.
pub open spec fn push_some(
    es: Seq<(Seq<char>, JsonV)>,
    key: Seq<char>,
    o: Option<JsonV>,
) -> Seq<(Seq<char>, JsonV)> {
    match o {
        Some(v) => es.push((key, v)),
        None => es,
    }
}

/// Looking up a key after appending a member: an earlier member with the
/// key wins, else the appended one if its key matches.
pub proof fn lemma_lookup_push(es: Seq<(Seq<char>, JsonV)>, k: Seq<char>, v: JsonV, key: Seq<char>)
    ensures
        lookup(es.push((k, v)), key) == (match lookup(es, key) {
            Some(x) => Some(x),
            None => if k == key {
                Some(v)
            } else {
                None
            },
        }),
    decreases es.len(),
{
    if es.len() == 0 {
        assert(es.push((k, v)).drop_first() =~= es);
    } else {
        assert(es.push((k, v)).drop_first() =~= es.drop_first().push((k, v)));
        lemma_lookup_push(es.drop_first(), k, v, key);
    }
}

pub broadcast proof fn lemma_lookup_push_some(
    es: Seq<(Seq<char>, JsonV)>,
    k: Seq<char>,
    o: Option<JsonV>,
    key: Seq<char>,
)
    ensures
        #[trigger] lookup(push_some(es, k, o), key) == (match lookup(es, key) {
            Some(x) => Some(x),
            None => if k == key {
                o
            } else {
                None
            },
        }),
{
    if let Some(v) = o {
        lemma_lookup_push(es, k, v, key);
    }
}

pub proof fn lemma_entries_view_push(s: Seq<(String, Json)>, e: (String, Json))
    ensures
        entries_view(s.push(e)) == entries_view(s).push((e.0@, json_view(e.1))),
{
    assert(s.push(e).drop_last() =~= s);
}

pub proof fn lemma_items_view_push(s: Seq<Json>, e: Json)
    ensures
        items_view(s.push(e)) == items_view(s).push(json_view(e)),
{
    assert(s.push(e).drop_last() =~= s);
}

/// Appends the member `key: v` to the members `es` of an object under construction.
pub fn push_member(es: &mut Vec<(String, Json)>, key: &str, v: Json)
    ensures
        entries_view(final(es)@) == entries_view(old(es)@).push((key@, v@)),
{
    let k = key.to_owned();
    proof {
        lemma_entries_view_push(es@, (k, v));
    }
    es.push((k, v));
}

/// Appends `v` to the elements `items` of an array under construction.
pub fn push_item(items: &mut Vec<Json>, v: Json)
    ensures
        items_view(final(items)@) == items_view(old(items)@).push(v@),
{
    proof {
        lemma_items_view_push(items@, v);
    }
    items.push(v);
}

/// A JSON string holding `s`.
pub fn text(s: &str) -> (r: Json)
    ensures
        r@ == JsonV::Str(s@),
{
    Json::Str(s.to_owned())
}

/// The number `serde_json` makes of `n`.
pub fn int_json(n: i64) -> (r: Json)
    ensures
        r@ == int_v(n),
{
    if n >= 0 {
        Json::Number(JsonNumber::PosInt(n as u64))
    } else {
        Json::Number(JsonNumber::NegInt(n))
    }
}

/// The members of a fresh object, none yet.
pub fn new_members() -> (r: Vec<(String, Json)>)
    ensures
        entries_view(r@) == Seq::<(Seq<char>, JsonV)>::empty(),
{
    let r: Vec<(String, Json)> = Vec::new();
    assert(entries_view(r@) =~= Seq::empty());
    r
}

/// Appends the member `key: v` when `o` is `Some(v)`.
pub fn push_member_if(es: &mut Vec<(String, Json)>, key: &str, o: Option<Json>)
    ensures
        entries_view(final(es)@) == push_some(entries_view(old(es)@), key@, opt_json_view(o)),
{
    if let Some(v) = o {
        push_member(es, key, v);
    }
}

/// The elements of a fresh array, none yet.
pub fn new_items() -> (r: Vec<Json>)
    ensures
        items_view(r@) == Seq::<JsonV>::empty(),
{
    let r: Vec<Json> = Vec::new();
    assert(items_view(r@) =~= Seq::empty());
    r
}

/// A fresh empty object.
pub fn new_object() -> (r: Json)
    ensures
        r@ == empty_object(),
{
    let es: Vec<(String, Json)> = Vec::new();
    proof {
        assert(entries_view(es@) =~= Seq::empty());
    }
    Json::Object(es)
}

impl Json {
    /// The text at `key`, where the member exists and is a string.
    pub fn get_str(&self, key: &str) -> (r: Option<&str>)
        ensures
            opt_text_view(r) == get_str(self@, key@),
    {
        match self.get(key) {
            Some(v) => v.as_str(),
            None => None,
        }
    }

    /// A copy of the value at `key`, if there is one.
    pub fn get_cloned(&self, key: &str) -> (r: Option<Json>)
        ensures
            opt_json_view(r) == self@.get(key@),
    {
        match self.get(key) {
            Some(v) => Some(v.clone()),
            None => None,
        }
    }

    /// A copy of the value at `key`, or `default` where there is none.
    pub fn get_or(&self, key: &str, default: Json) -> (r: Json)
        ensures
            r@ == get_or(self@, key@, default@),
    {
        match self.get(key) {
            Some(v) => v.clone(),
            None => default,
        }
    }

    /// The value at the pointer token `"0"`.
    pub fn at_zero(&self) -> (r: Option<&Json>)
        ensures
            opt_view(r) == at_zero(self@),
    {
        broadcast use group_json_view;

        match self {
            Json::Object(_) => {
                let r = self.get("0");
                r
            },
            Json::Array(items) => {
                if items.len() > 0 {
                    proof {
                        lemma_items_view(items@);
                    }
                    Some(&items[0])
                } else {
                    None
                }
            },
            _ => None,
        }
    }

    /// The value at the two-step pointer `/k1/k2`.
    pub fn path2(&self, k1: &str, k2: &str) -> (r: Option<&Json>)
        ensures
            opt_view(r) == path2(self@, k1@, k2@),
    {
        match self.get(k1) {
            Some(v) => v.get(k2),
            None => None,
        }
    }
}

// ---------------------------------------------------------------------------
// JSON text, read and written by serde_json
// ---------------------------------------------------------------------------

#[verifier::external_type_specification]
#[verifier::external_body]
pub struct ExValue(serde_json::Value);

/// The value that `serde_json` reads from the text `text`, if it is JSON.
pub uninterp spec fn json_parse(text: Seq<char>) -> Option<JsonV>;

/// The text that `serde_json` writes for the value `v`.
pub uninterp spec fn json_text(v: JsonV) -> Seq<char>;

/// `serde_json::Value` as a [`Json`], variant for variant.
#[verifier::external_body]
fn value_to_json(v: &Value) -> Json {
    match v {
        Value::Null => Json::Null,
        Value::Bool(b) => Json::Bool(*b),
        Value::Number(n) => Json::Number(match (n.as_u64(), n.as_i64()) {
            (Some(u), _) => JsonNumber::PosInt(u),
            (None, Some(i)) => JsonNumber::NegInt(i),
            _ => JsonNumber::Float(n.to_string()),
        }),
        Value::String(t) => Json::Str(t.clone()),
        Value::Array(a) => Json::Array(a.iter().map(value_to_json).collect()),
        Value::Object(m) => Json::Object(m.iter().map(|(k, x)| (k.clone(), value_to_json(x))).collect()),
    }
}

/// A [`Json`] as a `serde_json::Value`, variant for variant.
#[verifier::external_body]
fn json_to_value(j: &Json) -> Value {
    match j {
        Json::Null => Value::Null,
        Json::Bool(b) => Value::Bool(*b),
        Json::Number(JsonNumber::PosInt(u)) => Value::from(*u),
        Json::Number(JsonNumber::NegInt(i)) => Value::from(*i),
        Json::Number(JsonNumber::Float(t)) => t.parse().map(Value::Number).unwrap_or(Value::Null),
        Json::Str(t) => Value::String(t.clone()),
        Json::Array(a) => Value::Array(a.iter().map(json_to_value).collect()),
        Json::Object(es) => Value::Object(es.iter().map(|(k, x)| (k.clone(), json_to_value(x))).collect()),
    }
}

/// `serde_json::from_str` into a `serde_json::Value`, taken as a [`Json`]:
/// the value of the text where it is JSON, `None` where it is not. The
/// contract names the result; what JSON text is and what it reads as is
/// serde_json's.
#[verifier::external_body]
pub(crate) fn parse_json(text: &str) -> (r: Option<Json>)
    ensures
        opt_json_view(r) == json_parse(text@),
{
    serde_json::from_str::<Value>(text).ok().map(|v| value_to_json(&v))
}

/// `Value::to_string` of the value: its compact JSON text. The
/// contract names the result; how strings are escaped and numbers written
/// is serde_json's.
#[verifier::external_body]
pub(crate) fn json_to_text(v: &Json) -> (r: String)
    ensures
        r@ == json_text(v@),
{
    json_to_value(v).to_string()
}

} // verus!
