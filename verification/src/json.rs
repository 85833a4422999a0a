//! Reading single values out of JSON text.

use vstd::prelude::*;
use vstd::string::*;
use crate::text::{cat3, join, joined, owned, pair_views};

verus! {

/// The string under `key` of the JSON object that `text` spells.
pub uninterp spec fn json_string(text: Seq<char>, key: Seq<char>) -> Option<Seq<char>>;

/// The string under `inner` of the object under `outer` of the JSON object
/// that `text` spells.
pub uninterp spec fn json_nested_string(
    text: Seq<char>,
    outer: Seq<char>,
    inner: Seq<char>,
) -> Option<Seq<char>>;

/// The number of items of the array under `key` of the JSON object that
/// `text` spells.
pub uninterp spec fn json_array_len(text: Seq<char>, key: Seq<char>) -> Option<u64>;

/// `serde_json::from_str`, then `Value::get` and `Value::as_str`: the string
/// under `key`, absent where the text is no JSON, no object, has no such key,
/// or holds no string there. The contract only names the result.
#[verifier::external_body]
pub(crate) fn string_at(text: &str, key: &str) -> (r: Option<String>)
    ensures
        r.deep_view() == json_string(text@, key@),
{
    let value: serde_json::Value = serde_json::from_str(text).ok()?;
    value.get(key)?.as_str().map(|s| s.to_string())
}

/// `serde_json::from_str`, then `Value::get` twice and `Value::as_str`: the
/// string under `inner` of what is under `outer`, absent where any of these
/// is. The contract only names the result.
#[verifier::external_body]
pub(crate) fn nested_string_at(text: &str, outer: &str, inner: &str) -> (r: Option<String>)
    ensures
        r.deep_view() == json_nested_string(text@, outer@, inner@),
{
    let value: serde_json::Value = serde_json::from_str(text).ok()?;
    value.get(outer)?.get(inner)?.as_str().map(|s| s.to_string())
}

/// `serde_json::from_str`, then `Value::get` and `Value::as_array`: the number
/// of items under `key`, absent where there is no array. The contract only
/// names the result.
#[verifier::external_body]
pub(crate) fn array_len_at(text: &str, key: &str) -> (r: Option<u64>)
    ensures
        r == json_array_len(text@, key@),
{
    let value: serde_json::Value = serde_json::from_str(text).ok()?;
    value.get(key)?.as_array().map(|a| a.len() as u64)
}

/// The boolean under `key` of the JSON object that `text` spells.
pub uninterp spec fn json_bool(text: Seq<char>, key: Seq<char>) -> Option<bool>;

/// `text`, read as JSON and written with indentation.
pub uninterp spec fn json_pretty(text: Seq<char>) -> Seq<char>;

/// The JSON string literal of a text.
pub uninterp spec fn json_quoted(s: Seq<char>) -> Seq<char>;

/// `serde_json::from_str`, then `Value::get` and `Value::as_bool`: the boolean
/// under `key`, absent where there is none. The contract only names the
/// result.
#[verifier::external_body]
pub(crate) fn bool_at(text: &str, key: &str) -> (r: Option<bool>)
    ensures
        r == json_bool(text@, key@),
{
    let value: serde_json::Value = serde_json::from_str(text).ok()?;
    value.get(key)?.as_bool()
}

/// `serde_json::from_str`, then `serde_json::to_string_pretty`: the value
/// with indentation, empty where the text is no JSON. The contract only names
/// the result.
#[verifier::external_body]
pub(crate) fn pretty(text: &str) -> (r: String)
    ensures
        r@ == json_pretty(text@),
{
    match serde_json::from_str::<serde_json::Value>(text) {
        Ok(value) => serde_json::to_string_pretty(&value).unwrap_or_default(),
        Err(_) => String::new(),
    }
}

/// `serde_json::to_string` on a string: its JSON literal, quotes included. It
/// does not fail on a string. The contract only names the result.
#[verifier::external_body]
pub(crate) fn quoted(s: &str) -> (r: String)
    ensures
        r@ == json_quoted(s@),
{
    serde_json::to_string(s).unwrap_or_default()
}

/// A JSON object of the given members, whose values are JSON already.
pub open spec fn object_text(rows: Seq<(Seq<char>, Seq<char>)>) -> Seq<char> {
    "{"@ + joined(
        rows.map_values(|r: (Seq<char>, Seq<char>)| json_quoted(r.0) + ":"@ + r.1),
        ","@,
    ) + "}"@
}

/// A JSON array of the given items, which are JSON already.
pub open spec fn array_text(items: Seq<Seq<char>>) -> Seq<char> {
    "["@ + joined(items, ","@) + "]"@
}

/// A JSON object of the given members, whose values are JSON already.
pub fn object(rows: &Vec<(String, String)>) -> (r: String)
    ensures
        r@ == object_text(pair_views(rows@)),
{
    let mut members: Vec<String> = Vec::new();
    let mut i: usize = 0;
    let ghost all = pair_views(rows@).map_values(
        |r: (Seq<char>, Seq<char>)| json_quoted(r.0) + ":"@ + r.1,
    );
    while i < rows.len()
        invariant
            i <= rows@.len(),
            all == pair_views(rows@).map_values(
                |r: (Seq<char>, Seq<char>)| json_quoted(r.0) + ":"@ + r.1,
            ),
            members.deep_view() == all.take(i as int),
        decreases rows@.len() - i,
    {
        let key = quoted(rows[i].0.as_str());
        let member = cat3(key.as_str(), ":", rows[i].1.as_str());
        let ghost before = members.deep_view();
        proof {
            assert(member@ == all[i as int]);
        }
        members.push(member);
        proof {
            assert(members.deep_view() =~= before.push(member@));
            assert(all.take(i + 1) =~= all.take(i as int).push(all[i as int]));
        }
        i += 1;
    }
    proof {
        assert(all.take(i as int) =~= all);
    }
    let inner = join(&members, ",");
    cat3("{", inner.as_str(), "}")
}

/// A JSON array of the given items, which are JSON already.
pub fn array(items: &Vec<String>) -> (r: String)
    ensures
        r@ == array_text(items.deep_view()),
{
    let inner = join(items, ",");
    cat3("[", inner.as_str(), "]")
}

/// The JSON of a boolean.
pub open spec fn bool_text(b: bool) -> Seq<char> {
    if b {
        "true"@
    } else {
        "false"@
    }
}

/// The JSON of a boolean.
pub fn boolean(b: bool) -> (r: &'static str)
    ensures
        r@ == bool_text(b),
{
    if b {
        "true"
    } else {
        "false"
    }
}

/// The JSON of an optional text.
pub open spec fn optional_text(o: Option<Seq<char>>) -> Seq<char> {
    match o {
        Some(s) => json_quoted(s),
        None => "null"@,
    }
}

/// The JSON of an optional text.
pub fn optional(o: &Option<String>) -> (r: String)
    ensures
        r@ == optional_text(o.deep_view()),
{
    match o {
        Some(s) => quoted(s.as_str()),
        None => owned("null"),
    }
}

/// An object lists its members in order, each key quoted before its value; an
/// array lists its items in order.
pub proof fn objects_list_their_members(
    key: Seq<char>,
    value: Seq<char>,
    item: Seq<char>,
)
    ensures
        object_text(Seq::empty()) == "{"@ + "}"@,
        object_text(seq![(key, value)]) == "{"@ + json_quoted(key) + ":"@ + value + "}"@,
        array_text(Seq::empty()) == "["@ + "]"@,
        array_text(seq![item]) == "["@ + item + "]"@,
        bool_text(true) == "true"@,
        bool_text(false) == "false"@,
        optional_text(Some(item)) == json_quoted(item),
        optional_text(None) == "null"@,
{
    let f = |r: (Seq<char>, Seq<char>)| json_quoted(r.0) + ":"@ + r.1;
    let none = Seq::<(Seq<char>, Seq<char>)>::empty();
    assert(none.map_values(f) =~= Seq::<Seq<char>>::empty());
    assert(object_text(none) =~= "{"@ + "}"@);
    assert(seq![(key, value)].map_values(f) =~= seq![json_quoted(key) + ":"@ + value]);
    assert(object_text(seq![(key, value)]) =~= "{"@ + json_quoted(key) + ":"@ + value + "}"@);
    assert(array_text(Seq::empty()) =~= "["@ + "]"@);
    assert(array_text(seq![item]) =~= "["@ + item + "]"@);
}

/// A member more, and an item more, follow the others after a comma.
pub proof fn members_follow_after_a_comma(
    rows: Seq<(Seq<char>, Seq<char>)>,
    key: Seq<char>,
    value: Seq<char>,
    items: Seq<Seq<char>>,
    item: Seq<char>,
)
    requires
        rows.len() > 0,
        items.len() > 0,
    ensures
        exists|inner: Seq<char>|
            object_text(rows) == "{"@ + inner + "}"@ && object_text(rows.push((key, value)))
                == #[trigger] ("{"@ + inner + ","@ + json_quoted(key) + ":"@ + value + "}"@),
        exists|inner: Seq<char>|
            array_text(items) == "["@ + inner + "]"@ && array_text(items.push(item))
                == #[trigger] ("["@ + inner + ","@ + item + "]"@),
{
    let f = |r: (Seq<char>, Seq<char>)| json_quoted(r.0) + ":"@ + r.1;
    let more = rows.push((key, value));
    let member = json_quoted(key) + ":"@ + value;
    assert(more.map_values(f) =~= rows.map_values(f).push(member));
    assert(more.map_values(f).drop_last() =~= rows.map_values(f));
    let inner = joined(rows.map_values(f), ","@);
    assert(object_text(more) =~= "{"@ + inner + ","@ + json_quoted(key) + ":"@ + value + "}"@);
    assert(items.push(item).drop_last() =~= items);
    let list = joined(items, ","@);
    assert(array_text(items.push(item)) =~= "["@ + list + ","@ + item + "]"@);
}

} // verus!
