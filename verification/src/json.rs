//! JSON values: what they hold, and how they are read and made.

use vstd::prelude::*;

use crate::text::{owned, texts, Text};

verus! {

/// What a JSON value holds. Of a number that is no 64-bit integer it is the text
/// that the number is written as.
pub ghost enum Json {
    Null,
    Bool(bool),
    Int(int),
    OtherNumber(Text),
    Str(Text),
    Arr(Seq<Json>),
    Obj(Map<Text, Json>),
}

/// `serde_json::Value`.
#[verifier::external_type_specification]
#[verifier::external_body]
pub struct ExValue(serde_json::Value);

/// What a `serde_json::Value` holds.
pub uninterp spec fn json_of(v: serde_json::Value) -> Json;

/// What `serde_json::from_str` reads from a text: a value, or the message of
/// its error.
pub uninterp spec fn parsed_json(text: Text) -> Result<Json, Text>;

/// What several values hold.
pub open spec fn jsons_of(v: Seq<serde_json::Value>) -> Seq<Json> {
    Seq::new(v.len(), |i: int| json_of(v[i]))
}

// ---- reading --------------------------------------------------------------------

/// `serde_json::from_str`: the value that the text writes, or the message of
/// the error; both depend on the text alone.
#[verifier::external_body]
pub(crate) fn parse_json(text: &str) -> (r: Result<serde_json::Value, String>)
    ensures
        match r {
            Ok(v) => parsed_json(text@) == Ok::<Json, Text>(json_of(v)),
            Err(e) => parsed_json(text@) == Err::<Json, Text>(e@),
        },
{
    serde_json::from_str(text).map_err(|e| e.to_string())
}

/// The member of an object; no other value has members.
pub open spec fn member_of(j: Json, key: Text) -> Option<Json> {
    match j {
        Json::Obj(m) => if m.contains_key(key) {
            Some(m[key])
        } else {
            None
        },
        _ => None,
    }
}

/// `serde_json::Value::get` with a string: the member of an object, nothing for
/// any other value.
#[verifier::external_body]
pub(crate) fn member<'a>(v: &'a serde_json::Value, key: &str) -> (r: Option<&'a serde_json::Value>)
    ensures
        match r {
            Some(m) => member_of(json_of(*v), key@) == Some(json_of(*m)),
            None => member_of(json_of(*v), key@) is None,
        },
{
    v.get(key)
}

/// `serde_json::Value::as_str`: the text of a string.
#[verifier::external_body]
pub(crate) fn as_text<'a>(v: &'a serde_json::Value) -> (r: Option<&'a str>)
    ensures
        match r {
            Some(s) => json_of(*v) == Json::Str(s@),
            None => !(json_of(*v) is Str),
        },
{
    v.as_str()
}

/// `serde_json::Value::as_array`: the items of an array.
#[verifier::external_body]
pub(crate) fn as_list<'a>(v: &'a serde_json::Value) -> (r: Option<&'a Vec<serde_json::Value>>)
    ensures
        match r {
            Some(a) => json_of(*v) == Json::Arr(jsons_of(a@)),
            None => !(json_of(*v) is Arr),
        },
{
    v.as_array()
}

/// `serde_json::Value::as_bool`: the value of a boolean.
#[verifier::external_body]
pub(crate) fn as_boolean(v: &serde_json::Value) -> (r: Option<bool>)
    ensures
        match r {
            Some(b) => json_of(*v) == Json::Bool(b),
            None => !(json_of(*v) is Bool),
        },
{
    v.as_bool()
}

/// `serde_json::Value::as_u64`: an integer that is not negative.
#[verifier::external_body]
pub(crate) fn as_unsigned(v: &serde_json::Value) -> (r: Option<u64>)
    ensures
        match r {
            Some(n) => json_of(*v) == Json::Int(n as int),
            None => match json_of(*v) {
                Json::Int(n) => n < 0 || n > u64::MAX,
                _ => true,
            },
        },
{
    v.as_u64()
}

/// `serde_json::Value::as_i64`: an integer that fits.
#[verifier::external_body]
pub(crate) fn as_signed(v: &serde_json::Value) -> (r: Option<i64>)
    ensures
        match r {
            Some(n) => json_of(*v) == Json::Int(n as int),
            None => match json_of(*v) {
                Json::Int(n) => n < i64::MIN || n > i64::MAX,
                _ => true,
            },
        },
{
    v.as_i64()
}

/// `serde_json::Map::keys` of an object: the names of its members, each once.
#[verifier::external_body]
pub(crate) fn member_names(v: &serde_json::Value) -> (r: Option<Vec<String>>)
    ensures
        match r {
            Some(names) => {
                &&& json_of(*v) is Obj
                &&& texts(names@).no_duplicates()
                &&& forall|k: Text|
                    #[trigger] texts(names@).contains(k) <==> (json_of(*v)->Obj_0).contains_key(k)
            },
            None => !(json_of(*v) is Obj),
        },
{
    v.as_object().map(|m| m.keys().cloned().collect())
}

// ---- making ---------------------------------------------------------------------

/// `serde_json::Value::Null`.
#[verifier::external_body]
pub(crate) fn null_value() -> (r: serde_json::Value)
    ensures
        json_of(r) == Json::Null,
{
    serde_json::Value::Null
}

/// `serde_json::Value::Bool`.
#[verifier::external_body]
pub(crate) fn bool_value(b: bool) -> (r: serde_json::Value)
    ensures
        json_of(r) == Json::Bool(b),
{
    serde_json::Value::Bool(b)
}

/// `serde_json::Value::from` of a signed integer.
#[verifier::external_body]
pub(crate) fn int_value(n: i64) -> (r: serde_json::Value)
    ensures
        json_of(r) == Json::Int(n as int),
{
    serde_json::Value::from(n)
}

/// `serde_json::Value::from` of an unsigned integer.
#[verifier::external_body]
pub(crate) fn unsigned_value(n: u64) -> (r: serde_json::Value)
    ensures
        json_of(r) == Json::Int(n as int),
{
    serde_json::Value::from(n)
}

/// `serde_json::Value::String`.
#[verifier::external_body]
pub(crate) fn string_value(s: String) -> (r: serde_json::Value)
    ensures
        json_of(r) == Json::Str(s@),
{
    serde_json::Value::String(s)
}

/// `serde_json::Value::Array`.
#[verifier::external_body]
pub(crate) fn array_value(v: Vec<serde_json::Value>) -> (r: serde_json::Value)
    ensures
        json_of(r) == Json::Arr(jsons_of(v@)),
{
    serde_json::Value::Array(v)
}

/// `serde_json::Value::Object` of `serde_json::Map::new`: an object without
/// members.
#[verifier::external_body]
pub(crate) fn empty_object() -> (r: serde_json::Value)
    ensures
        json_of(r) == Json::Obj(Map::<Text, Json>::empty()),
{
    serde_json::Value::Object(serde_json::Map::new())
}

/// Assignment through `IndexMut` for `serde_json::Value`: the member of that
/// name is inserted, or replaced. On anything but an object it can panic.
#[verifier::external_body]
pub(crate) fn put_member(v: &mut serde_json::Value, key: &str, x: serde_json::Value)
    requires
        json_of(*old(v)) is Obj,
    ensures
        json_of(*final(v)) == Json::Obj((json_of(*old(v))->Obj_0).insert(key@, json_of(x))),
{
    v[key] = x;
}

/// `serde_json::Value::clone`: a copy holds the same.
#[verifier::external_body]
pub(crate) fn clone_value(v: &serde_json::Value) -> (r: serde_json::Value)
    ensures
        json_of(r) == json_of(*v),
{
    v.clone()
}

// ---- lines ----------------------------------------------------------------------

/// Is the value nested at most so deep, with no numbers in it but 64-bit
/// integers?
pub open spec fn within_depth(j: Json, depth: nat) -> bool
    decreases depth,
{
    match j {
        Json::OtherNumber(_) => false,
        Json::Arr(a) => depth > 0 && forall|i: int|
            0 <= i < a.len() ==> within_depth(#[trigger] a[i], (depth - 1) as nat),
        Json::Obj(m) => depth > 0 && forall|k: Text|
            m.contains_key(k) ==> within_depth(#[trigger] m[k], (depth - 1) as nat),
        _ => true,
    }
}

/// How deep a value may be nested that is read back.
pub const MAX_DEPTH: usize = 127;

/// Is this value read from the text?
pub open spec fn reads_as(text: Text, j: Json) -> bool {
    parsed_json(text) == Ok::<Json, Text>(j)
}

/// The compact form in which `serde_json` writes a value. The members of an
/// object come in the order of their names, so what it holds decides it.
pub uninterp spec fn printed_json(j: Json) -> Text;

/// `serde_json::Value::to_string`: the compact form of a value is one line, and
/// what the value holds decides it; a number that is no 64-bit integer is its
/// own text. It is read back as the same value, with and without a line feed
/// behind it; that is not said of values that are nested deeper, or hold other
/// numbers.
#[verifier::external_body]
pub(crate) fn print_json(v: &serde_json::Value) -> (r: String)
    ensures
        !r@.contains('\n'),
        r@ == printed_json(json_of(*v)),
        match json_of(*v) {
            Json::Null => r@ == "null"@,
            Json::OtherNumber(t) => r@ == t,
            _ => true,
        },
        within_depth(json_of(*v), MAX_DEPTH as nat) ==> reads_as(r@, json_of(*v)),
        within_depth(json_of(*v), MAX_DEPTH as nat) ==> reads_as(r@.push('\n'), json_of(*v)),
{
    v.to_string()
}

/// Is this a line: a line feed at its end, and nowhere else?
pub open spec fn is_line(s: Text) -> bool {
    s.len() > 0 && s.last() == '\n' && !s.drop_last().contains('\n')
}

/// A value as one line: its compact form, and a line feed.
pub fn line_of(v: &serde_json::Value) -> (r: String)
    ensures
        is_line(r@),
        r@ == printed_json(json_of(*v)).push('\n'),
        within_depth(json_of(*v), MAX_DEPTH as nat) ==> reads_as(r@, json_of(*v)),
{
    let mut line = print_json(v);
    let ghost text = line@;
    line.push('\n');
    assert(line@.drop_last() =~= text);
    line
}

// ---- texts ----------------------------------------------------------------------

/// A string.
pub(crate) fn text_value(s: &str) -> (r: serde_json::Value)
    ensures
        json_of(r) == Json::Str(s@),
{
    string_value(owned(s))
}

/// The strings, as an array.
pub open spec fn text_array(v: Seq<Text>) -> Json {
    Json::Arr(Seq::new(v.len(), |i: int| Json::Str(v[i])))
}

/// An array of strings.
pub fn texts_value(v: &Vec<String>) -> (r: serde_json::Value)
    ensures
        json_of(r) == text_array(texts(v@)),
{
    let mut out: Vec<serde_json::Value> = Vec::new();
    let mut i: usize = 0;
    while i < v.len()
        invariant
            i <= v.len(),
            out.len() == i,
            forall|j: int| 0 <= j < i ==> json_of(#[trigger] out@[j]) == Json::Str(v@[j]@),
        decreases v.len() - i,
    {
        out.push(text_value(v[i].as_str()));
        i = i + 1;
    }
    proof {
        let a = jsons_of(out@);
        let b = Seq::new(texts(v@).len(), |i: int| Json::Str(texts(v@)[i]));
        assert(a =~= b);
    }
    array_value(out)
}

/// The text, or null where there is none.
pub open spec fn opt_text_json(s: Option<Text>) -> Json {
    match s {
        Some(t) => Json::Str(t),
        None => Json::Null,
    }
}

pub fn opt_text_value(s: &Option<String>) -> (r: serde_json::Value)
    ensures
        json_of(r) == opt_text_json(crate::text::opt_text(*s)),
{
    match s {
        Some(t) => text_value(t.as_str()),
        None => null_value(),
    }
}

/// The strings among the items of an array; nothing for any other value.
pub open spec fn strings_in(j: Json) -> Option<Seq<Text>> {
    match j {
        Json::Arr(a) => Some(only_strings(a)),
        _ => None,
    }
}

pub open spec fn only_strings(a: Seq<Json>) -> Seq<Text>
    decreases a.len(),
{
    if a.len() == 0 {
        seq![]
    } else {
        match a.last() {
            Json::Str(s) => only_strings(a.drop_last()).push(s),
            _ => only_strings(a.drop_last()),
        }
    }
}

/// The strings of an array that holds strings alone are those strings.
pub proof fn strings_in_text_array(v: Seq<Text>)
    ensures
        strings_in(text_array(v)) == Some(v),
    decreases v.len(),
{
    let a = Seq::new(v.len(), |i: int| Json::Str(v[i]));
    if v.len() > 0 {
        strings_in_text_array(v.drop_last());
        let b = Seq::new(v.drop_last().len(), |i: int| Json::Str(v.drop_last()[i]));
        assert(a.drop_last() =~= b);
        assert(only_strings(a) =~= v);
    } else {
        assert(only_strings(a) =~= v);
    }
}

/// The strings among the items of an array; nothing for any other value.
pub fn str_vec(v: &serde_json::Value) -> (r: Option<Vec<String>>)
    ensures
        match r {
            Some(s) => strings_in(json_of(*v)) == Some(texts(s@)),
            None => strings_in(json_of(*v)) is None,
        },
{
    match as_list(v) {
        None => None,
        Some(a) => {
            let mut out: Vec<String> = Vec::new();
            let mut i: usize = 0;
            proof {
                assert(jsons_of(a@).take(0) =~= seq![]);
                assert(texts(out@) =~= seq![]);
            }
            while i < a.len()
                invariant
                    i <= a.len(),
                    texts(out@) == only_strings(jsons_of(a@).take(i as int)),
                decreases a.len() - i,
            {
                let ghost upto = jsons_of(a@).take(i + 1);
                let ghost was = out@;
                proof {
                    assert(upto.drop_last() =~= jsons_of(a@).take(i as int));
                    assert(upto.last() == json_of(a@[i as int]));
                }
                match as_text(&a[i]) {
                    Some(s) => {
                        out.push(owned(s));
                        assert(texts(out@) =~= texts(was).push(s@));
                    },
                    None => {},
                }
                i = i + 1;
            }
            assert(jsons_of(a@).take(a.len() as int) =~= jsons_of(a@));
            Some(out)
        },
    }
}

} // verus!
