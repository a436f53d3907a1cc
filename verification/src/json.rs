//! JSON values: their model, and what the client relies on of `serde_json`, `serde_merge`.
use crate::search::lemma_first_where_is;
use crate::text::digits;
use crate::text::equals;
use crate::text::lemma_digits_injective;
use crate::text::position;
use serde_json::Value;
use std::collections::HashMap;
use vstd::prelude::*;

verus! {

/// What a JSON value holds.
pub enum JsonView {
    Null,
    Bool(bool),
    /// A number kept as an integer.
    Int(int),
    /// A number kept in floating point, by its bit pattern.
    Float(u64),
    Text(Seq<char>),
    List(Seq<JsonView>),
    Object(Map<Seq<char>, JsonView>),
}

/// The declaration of `serde_json::Value`, an opaque value to the proofs.
#[verifier::external_type_specification]
#[verifier::external_body]
pub struct ExValue(serde_json::Value);

/// The contents of a `serde_json::Value`.
pub uninterp spec fn json(value: serde_json::Value) -> JsonView;

/// The contents of several values, in order.
pub open spec fn jsons(values: Seq<serde_json::Value>) -> Seq<JsonView> {
    values.map_values(|value: serde_json::Value| json(value))
}

/// The reference tokens of a JSON pointer behind its leading `/`: the parts between slashes.
pub open spec fn tokens(path: Seq<char>) -> Seq<Seq<char>>
    decreases path.len(),
{
    let at = position(path, '/');
    if 0 <= at < path.len() {
        seq![path.take(at)] + tokens(path.skip(at + 1))
    } else {
        seq![path]
    }
}

/// What a reference token stands for: `~1` for a slash, `~0` for a tilde.
pub open spec fn unescaped(token: Seq<char>) -> Seq<char>
    decreases token.len(),
{
    if token.len() == 0 {
        token
    } else if token.len() >= 2 && token[0] == '~' && token[1] == '1' {
        seq!['/'] + unescaped(token.skip(2))
    } else if token.len() >= 2 && token[0] == '~' && token[1] == '0' {
        seq!['~'] + unescaped(token.skip(2))
    } else {
        seq![token[0]] + unescaped(token.skip(1))
    }
}

/// The member of an object under `key`, or the item of a list whose position `key` writes in
/// decimal.
pub open spec fn child(value: JsonView, key: Seq<char>) -> Option<JsonView> {
    match value {
        JsonView::Object(members) => if members.contains_key(key) {
            Some(members[key])
        } else {
            None
        },
        JsonView::List(items) => if exists|i: int| 0 <= i < items.len() && #[trigger] digits(i as nat) == key {
            let i = choose|i: int| 0 <= i < items.len() && #[trigger] digits(i as nat) == key;
            Some(items[i])
        } else {
            None
        },
        _ => None,
    }
}

/// The value that a path of tokens leads to.
pub open spec fn descend(value: JsonView, path: Seq<Seq<char>>) -> Option<JsonView>
    decreases path.len(),
{
    if path.len() == 0 {
        Some(value)
    } else {
        match child(value, unescaped(path[0])) {
            Some(next) => descend(next, path.skip(1)),
            None => None,
        }
    }
}

/// The value that a JSON pointer addresses.
pub open spec fn at(value: JsonView, pointer: Seq<char>) -> Option<JsonView> {
    if pointer.len() == 0 {
        Some(value)
    } else if pointer[0] == '/' {
        descend(value, tokens(pointer.skip(1)))
    } else {
        None
    }
}

/// The contents of an optional value.
pub open spec fn json_option(value: Option<&serde_json::Value>) -> Option<JsonView> {
    match value {
        Some(value) => Some(json(*value)),
        None => None,
    }
}

/// `Value::pointer`: the value that the pointer addresses.
pub assume_specification<'a>[ serde_json::Value::pointer ](
    value: &'a serde_json::Value,
    pointer: &str,
) -> (r: Option<&'a serde_json::Value>)
    ensures
        json_option(r) == at(json(*value), pointer@),
;

/// `Value::as_bool`: the truth value of a boolean, nothing for any other value.
pub assume_specification[ serde_json::Value::as_bool ](value: &serde_json::Value) -> (r: Option<bool>)
    ensures
        r == (match json(*value) {
            JsonView::Bool(b) => Some(b),
            _ => None,
        }),
;

/// `Value::as_str`: the text of a string, nothing for any other value.
pub assume_specification<'a>[ serde_json::Value::as_str ](value: &'a serde_json::Value) -> (r: Option<&'a str>)
    ensures
        match r {
            Some(text) => json(*value) == JsonView::Text(text@),
            None => !(json(*value) is Text),
        },
;

/// `Value::is_object`: whether the value is an object.
pub assume_specification[ serde_json::Value::is_object ](value: &serde_json::Value) -> (r: bool)
    ensures
        r == (json(*value) is Object),
;

/// `Value::clone`: a value with the same contents.
pub assume_specification[ <serde_json::Value as Clone>::clone ](value: &serde_json::Value) -> (r: serde_json::Value)
    ensures
        json(r) == json(*value),
;

/// `serde_json::to_value` on a vector of values: the list of them.
#[verifier::external_body]
pub(crate) fn list_of(values: &Vec<Value>) -> (r: Value)
    ensures
        json(r) == JsonView::List(jsons(values@)),
{
    serde_json::to_value(values).unwrap()
}

/// `serde_json::to_value` on an integer: that integer.
#[verifier::external_body]
pub(crate) fn integer(n: i32) -> (r: Value)
    ensures
        json(r) == JsonView::Int(n as int),
{
    serde_json::to_value(n).unwrap()
}

/// `serde_json::to_value` on text: that text.
#[verifier::external_body]
pub(crate) fn text(s: &str) -> (r: Value)
    ensures
        json(r) == JsonView::Text(s@),
{
    serde_json::to_value(s).unwrap()
}

/// `serde_json::to_value` on nothing, `()`: the null value.
#[verifier::external_body]
pub(crate) fn null() -> (r: Value)
    ensures
        json(r) == JsonView::Null,
{
    serde_json::to_value(()).unwrap()
}

/// The members of an object made of `entries`, a later one in place of an earlier one of its name.
pub open spec fn members(entries: Seq<(&str, Value)>) -> Map<Seq<char>, JsonView>
    decreases entries.len(),
{
    if entries.len() == 0 {
        Map::empty()
    } else {
        members(entries.drop_last()).insert(entries.last().0@, json(entries.last().1))
    }
}

/// `serde_json::to_value` on a map from names to values: the object of those members.
#[verifier::external_body]
pub(crate) fn object(entries: Vec<(&str, Value)>) -> (r: Value)
    ensures
        json(r) == JsonView::Object(members(entries@)),
{
    serde_json::to_value(entries.into_iter().collect::<HashMap<&str, Value>>()).unwrap()
}

/// `serde_json::from_value` to an `i32`: an integer of that range, and no other value.
#[verifier::external_body]
pub(crate) fn to_i32(value: Value) -> (r: Option<i32>)
    ensures
        r == as_i32(json(value)),
{
    serde_json::from_value(value).ok()
}

/// `serde_json::from_value` to a `bool`: a boolean, and no other value.
#[verifier::external_body]
pub(crate) fn to_bool(value: Value) -> (r: Option<bool>)
    ensures
        r == as_truth(json(value)),
{
    serde_json::from_value(value).ok()
}

/// The integer that a value holds, where it fits an `i32`.
pub open spec fn as_i32(value: JsonView) -> Option<i32> {
    match value {
        JsonView::Int(n) => if i32::MIN <= n <= i32::MAX {
            Some(n as i32)
        } else {
            None
        },
        _ => None,
    }
}

/// The boolean that a value holds.
pub open spec fn as_truth(value: JsonView) -> Option<bool> {
    match value {
        JsonView::Bool(b) => Some(b),
        _ => None,
    }
}

/// Whether `members` holds something other than null under `key`.
pub open spec fn has_value(members: Map<Seq<char>, JsonView>, key: Seq<char>) -> bool {
    members.contains_key(key) && !(members[key] is Null)
}

/// The members of `below` and of `above` together, those of `above` that are not null in front.
pub open spec fn overlay(
    below: Map<Seq<char>, JsonView>,
    above: Map<Seq<char>, JsonView>,
) -> Map<Seq<char>, JsonView> {
    Map::new(
        |key: Seq<char>| below.contains_key(key) || has_value(above, key),
        |key: Seq<char>| if has_value(above, key) { above[key] } else { below[key] },
    )
}

/// `serde_merge::omerge` on two values: where both are objects, the members of `below` overlaid
/// with those of `above` that are not null; nothing where one of them is no object.
#[verifier::external_body]
pub(crate) fn merge(below: &Value, above: &Value) -> (r: Option<Value>)
    ensures
        match (json(*below), json(*above)) {
            (JsonView::Object(b), JsonView::Object(a)) => {
                r is Some && json(r->0) == JsonView::Object(overlay(b, a))
            },
            _ => r is None,
        },
{
    serde_merge::omerge(below, above).ok()
}

/// Under every key the overlay holds what `above` has there, unless that is null or missing; then it
/// holds what `below` has there.
pub proof fn law_overlay_prefers_above(
    below: Map<Seq<char>, JsonView>,
    above: Map<Seq<char>, JsonView>,
    key: Seq<char>,
)
    ensures
        overlay(below, above).contains_key(key) <==> below.contains_key(key) || has_value(above, key),
        has_value(above, key) ==> overlay(below, above)[key] == above[key],
        below.contains_key(key) && !has_value(above, key) ==> overlay(below, above)[key]
            == below[key],
{
}

/// A token without a tilde stands for itself.
pub proof fn lemma_unescaped_plain(token: Seq<char>)
    requires
        !token.contains('~'),
    ensures
        unescaped(token) == token,
    decreases token.len(),
{
    if token.len() > 0 {
        assert(token[0] != '~');
        assert(!token.skip(1).contains('~')) by {
            if token.skip(1).contains('~') {
                let i = choose|i: int| 0 <= i < token.skip(1).len() && token.skip(1)[i] == '~';
                assert(token[i + 1] == '~');
            }
        }
        lemma_unescaped_plain(token.skip(1));
        assert(seq![token[0]] + token.skip(1) =~= token);
    }
}

/// A path that begins with a token without slash and a slash behind it has that token first.
pub proof fn lemma_tokens_first(token: Seq<char>, rest: Seq<char>)
    requires
        !token.contains('/'),
    ensures
        tokens(token + seq!['/'] + rest) == seq![token] + tokens(rest),
{
    let path = token + seq!['/'] + rest;
    assert forall|k: int| 0 <= k < token.len() implies !equals('/')(#[trigger] path[k]) by {
        assert(path[k] == token[k]);
        assert(token.contains(token[k]));
    }
    lemma_first_where_is(path, equals('/'), token.len() as int);
    assert(path.take(token.len() as int) =~= token);
    assert(path.skip((token.len() + 1) as int) =~= rest);
}

/// A path without slash is one token.
pub proof fn lemma_tokens_last(token: Seq<char>)
    requires
        !token.contains('/'),
    ensures
        tokens(token) == seq![token],
{
    assert forall|k: int| 0 <= k < token.len() implies !equals('/')(#[trigger] token[k]) by {
        assert(token.contains(token[k]));
    }
    lemma_first_where_is(token, equals('/'), token.len() as int);
}

/// The token `0` leads to the first item of a list.
pub proof fn lemma_child_zero(items: Seq<JsonView>)
    requires
        items.len() > 0,
    ensures
        child(JsonView::List(items), seq!['0']) == Some(items[0]),
{
    assert(digits(0) =~= seq!['0']);
    assert(digits(0int as nat) == seq!['0']);
    let i = choose|i: int| 0 <= i < items.len() && #[trigger] digits(i as nat) == seq!['0'];
    lemma_digits_injective(i as nat, 0);
}

/// The contents of several values are those of each, in order.
pub proof fn law_jsons_in_order(values: Seq<serde_json::Value>)
    ensures
        jsons(values).len() == values.len(),
        forall|i: int| 0 <= i < values.len() ==> #[trigger] jsons(values)[i] == json(values[i]),
{
}

/// A value is read as a number exactly if it is an integer of the range, and as a boolean exactly if it
/// is one.
pub proof fn law_reading_is_exact(value: JsonView, n: i32, b: bool)
    ensures
        as_i32(value) == Some(n) <==> value == JsonView::Int(n as int),
        as_truth(value) == Some(b) <==> value == JsonView::Bool(b),
{
}

/// From the answer of the server, whose first item is a list, a pointer that goes on behind `/0/0`
/// leads where it leads from the first item of that list, whatever it is.
pub proof fn law_pointer_behind_first_item(
    response: Seq<JsonView>,
    items: Seq<JsonView>,
    pointer: Seq<char>,
)
    requires
        response.len() > 0,
        response[0] == JsonView::List(items),
        items.len() > 0,
        pointer.len() > 0 ==> pointer[0] == '/',
    ensures
        at(JsonView::List(response), "/0/0"@ + pointer) == at(items[0], pointer),
{
    reveal_strlit("/0/0");
    let zero = seq!['0'];
    assert(!zero.contains('/') && !zero.contains('~'));
    lemma_unescaped_plain(zero);
    lemma_child_zero(response);
    lemma_child_zero(items);
    let whole = "/0/0"@ + pointer;
    let path = tokens(whole.skip(1));
    if pointer.len() == 0 {
        lemma_tokens_last(zero);
        lemma_tokens_first(zero, zero);
        assert(whole.skip(1) =~= zero + seq!['/'] + zero);
        assert(path =~= seq![zero, zero]);
        assert(path.skip(1) =~= seq![zero]);
        assert(path.skip(1).skip(1) =~= Seq::<Seq<char>>::empty());
    } else {
        let rest = pointer.skip(1);
        lemma_tokens_first(zero, rest);
        lemma_tokens_first(zero, zero + seq!['/'] + rest);
        assert(whole.skip(1) =~= zero + seq!['/'] + (zero + seq!['/'] + rest));
        assert(path =~= seq![zero] + (seq![zero] + tokens(rest)));
        assert(path.skip(1) =~= seq![zero] + tokens(rest));
        assert(path.skip(1).skip(1) =~= tokens(rest));
    }
    assert(path[0] == zero);
    assert(path.skip(1)[0] == zero);
    reveal_with_fuel(descend, 3);
}

/// From an answer without items no pointer that begins with `/0/0` leads anywhere.
pub proof fn law_pointer_into_nothing(response: Seq<JsonView>, pointer: Seq<char>)
    requires
        response.len() == 0 || response[0] == JsonView::List(Seq::empty()),
        pointer.len() > 0 ==> pointer[0] == '/',
    ensures
        at(JsonView::List(response), "/0/0"@ + pointer) is None,
{
    reveal_strlit("/0/0");
    let zero = seq!['0'];
    assert(!zero.contains('/') && !zero.contains('~'));
    lemma_unescaped_plain(zero);
    if response.len() > 0 {
        lemma_child_zero(response);
    }
    let whole = "/0/0"@ + pointer;
    let path = tokens(whole.skip(1));
    if pointer.len() == 0 {
        lemma_tokens_last(zero);
        lemma_tokens_first(zero, zero);
        assert(whole.skip(1) =~= zero + seq!['/'] + zero);
        assert(path =~= seq![zero, zero]);
    } else {
        let rest = pointer.skip(1);
        lemma_tokens_first(zero, rest);
        lemma_tokens_first(zero, zero + seq!['/'] + rest);
        assert(whole.skip(1) =~= zero + seq!['/'] + (zero + seq!['/'] + rest));
        assert(path =~= seq![zero] + (seq![zero] + tokens(rest)));
    }
    assert(path[0] == zero);
    assert(path.skip(1)[0] == zero);
    assert(child(JsonView::List(Seq::empty()), zero) is None);
    reveal_with_fuel(descend, 3);
}

} // verus!
