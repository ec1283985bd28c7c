//! Reading JSON text: members of objects, elements of lists, and scalars.
use crate::outside::{json_node, parse_json, JsonNode, JsonNodeView};
use crate::text::{same, views};
use vstd::prelude::*;

verus! {

/// The value of the first member with the given name, from the member at `from` on.
pub open spec fn lookup(m: Seq<(Seq<char>, Seq<char>)>, key: Seq<char>, from: nat) -> Option<
    Seq<char>,
>
    decreases m.len() - from,
{
    if from >= m.len() {
        None
    } else if m[from as int].0 == key {
        Some(m[from as int].1)
    } else {
        lookup(m, key, from + 1)
    }
}

/// The JSON text of a member of an object; none where the text is no object or has no such member.
pub open spec fn member(json: Seq<char>, key: Seq<char>) -> Option<Seq<char>> {
    match json_node(json) {
        Some(JsonNodeView::Object(m)) => lookup(m, key, 0),
        _ => None,
    }
}

/// The JSON texts of the elements of a list; none where the text is no list.
pub open spec fn elements(json: Seq<char>) -> Option<Seq<Seq<char>>> {
    match json_node(json) {
        Some(JsonNodeView::Array(a)) => Some(a),
        _ => None,
    }
}

/// The string that JSON text stands for; none where it is no string.
pub open spec fn string_value(json: Seq<char>) -> Option<Seq<char>> {
    match json_node(json) {
        Some(JsonNodeView::Text(s)) => Some(s),
        _ => None,
    }
}

/// The string that is a member of an object.
pub open spec fn string_member(json: Seq<char>, key: Seq<char>) -> Option<Seq<char>> {
    match member(json, key) {
        Some(v) => string_value(v),
        None => None,
    }
}

/// The contents of the members of an object.
pub open spec fn member_views(m: Seq<(String, String)>) -> Seq<(Seq<char>, Seq<char>)> {
    m.map_values(|m: (String, String)| (m.0@, m.1@))
}

/// The value of the first member with the given name.
pub fn find_member(m: &Vec<(String, String)>, key: &str) -> (r: Option<String>)
    ensures
        match r {
            Some(v) => lookup(member_views(m@), key@, 0) == Some(v@),
            None => lookup(member_views(m@), key@, 0) is None,
        },
{
    let ghost v = member_views(m@);
    let mut i: usize = 0;
    while i < m.len()
        invariant
            v == member_views(m@),
            i <= m@.len(),
            lookup(v, key@, 0) == lookup(v, key@, i as nat),
        decreases m@.len() - i,
    {
        assert(v[i as int] == (m@[i as int].0@, m@[i as int].1@));
        if same(m[i].0.as_str(), key) {
            return Some(m[i].1.clone());
        }
        i += 1;
    }
    None
}

/// The JSON text of a member of an object.
pub fn get_member(json: &str, key: &str) -> (r: Option<String>)
    ensures
        match r {
            Some(v) => member(json@, key@) == Some(v@),
            None => member(json@, key@) is None,
        },
{
    match parse_json(json) {
        Some(JsonNode::Object(m)) => find_member(&m, key),
        _ => None,
    }
}

/// The JSON texts of the elements of a list.
pub fn get_elements(json: &str) -> (r: Option<Vec<String>>)
    ensures
        match r {
            Some(v) => elements(json@) == Some(views(v@)),
            None => elements(json@) is None,
        },
{
    match parse_json(json) {
        Some(JsonNode::Array(a)) => Some(a),
        _ => None,
    }
}

/// The string that JSON text stands for.
pub fn as_string(json: &str) -> (r: Option<String>)
    ensures
        match r {
            Some(s) => string_value(json@) == Some(s@),
            None => string_value(json@) is None,
        },
{
    match parse_json(json) {
        Some(JsonNode::Text(s)) => Some(s),
        _ => None,
    }
}

/// The string that is a member of an object.
pub fn get_string(json: &str, key: &str) -> (r: Option<String>)
    ensures
        match r {
            Some(s) => string_member(json@, key@) == Some(s@),
            None => string_member(json@, key@) is None,
        },
{
    match get_member(json, key) {
        Some(v) => as_string(v.as_str()),
        None => None,
    }
}

/// The number that is a member of an object, where it is a natural one of 64 bits.
pub open spec fn number_member(json: Seq<char>, key: Seq<char>) -> Option<u64> {
    match member(json, key) {
        Some(v) => match json_node(v) {
            Some(JsonNodeView::Number(n)) => n,
            _ => None,
        },
        None => None,
    }
}

/// The number that is a member of an object, where it is a natural one of 64 bits.
pub fn get_number(json: &str, key: &str) -> (r: Option<u64>)
    ensures
        r == number_member(json@, key@),
{
    match get_member(json, key) {
        Some(v) => match parse_json(v.as_str()) {
            Some(JsonNode::Number(n)) => n,
            _ => None,
        },
        None => None,
    }
}

/// The truth value that is a member of an object.
pub open spec fn bool_member(json: Seq<char>, key: Seq<char>) -> Option<bool> {
    match member(json, key) {
        Some(v) => match json_node(v) {
            Some(JsonNodeView::Bool(b)) => Some(b),
            _ => None,
        },
        None => None,
    }
}

/// The truth value that is a member of an object.
pub fn get_bool(json: &str, key: &str) -> (r: Option<bool>)
    ensures
        r == bool_member(json@, key@),
{
    match get_member(json, key) {
        Some(v) => match parse_json(v.as_str()) {
            Some(JsonNode::Bool(b)) => Some(b),
            _ => None,
        },
        None => None,
    }
}

/// Whether JSON text stands for an object.
pub fn is_object(json: &str) -> (r: bool)
    ensures
        r == (json_node(json@) matches Some(n) && n is Object),
{
    matches!(parse_json(json), Some(JsonNode::Object(_)))
}

/// A member of an object is the first with its name, and what is no object has none.
pub proof fn law_member(json: Seq<char>, m: Seq<(Seq<char>, Seq<char>)>, key: Seq<char>, k: int)
    ensures
        json_node(json) == Some(JsonNodeView::Object(m)) && 0 <= k < m.len() && m[k].0 == key
            && (forall|j: int| 0 <= j < k ==> (#[trigger] m[j]).0 != key) ==> member(json, key)
            == Some(m[k].1),
        json_node(json) == Some(JsonNodeView::Object(m)) && (forall|j: int|
            0 <= j < m.len() ==> (#[trigger] m[j]).0 != key) ==> member(json, key) is None,
        !(json_node(json) matches Some(n) && n is Object) ==> member(json, key) is None,
{
    lemma_lookup(m, key, 0);
    match json_node(json) {
        Some(JsonNodeView::Object(o)) => {
            lemma_lookup(o, key, 0);
        },
        _ => {},
    }
}

proof fn lemma_lookup(m: Seq<(Seq<char>, Seq<char>)>, key: Seq<char>, from: nat)
    ensures
        (forall|j: int| from <= j < m.len() ==> (#[trigger] m[j]).0 != key) ==> lookup(m, key, from)
            is None,
        forall|k: int|
            from <= k < m.len() && (#[trigger] m[k]).0 == key && (forall|j: int|
                from <= j < k ==> (#[trigger] m[j]).0 != key) ==> lookup(m, key, from) == Some(
                m[k].1,
            ),
    decreases m.len() - from,
{
    if from < m.len() && m[from as int].0 != key {
        lemma_lookup(m, key, from + 1);
        assert forall|k: int|
            from <= k < m.len() && (#[trigger] m[k]).0 == key && (forall|j: int|
                from <= j < k ==> (#[trigger] m[j]).0 != key) implies lookup(m, key, from) == Some(
            m[k].1,
        ) by {
            assert(k >= from + 1);
            assert forall|j: int| from + 1 <= j < k implies (#[trigger] m[j]).0 != key by {}
        }
    } else if from < m.len() {
        assert forall|k: int|
            from <= k < m.len() && (#[trigger] m[k]).0 == key && (forall|j: int|
                from <= j < k ==> (#[trigger] m[j]).0 != key) implies lookup(m, key, from) == Some(
            m[k].1,
        ) by {
            if k > from {
                assert(m[from as int].0 != key);
            }
        }
    }
}

/// What is read from JSON text is what it stands for, and nothing is read as another kind of value.
pub proof fn law_values(json: Seq<char>, key: Seq<char>, v: Seq<char>)
    ensures
        json_node(json) matches Some(JsonNodeView::Array(a)) ==> elements(json) == Some(a),
        !(json_node(json) matches Some(n) && n is Array) ==> elements(json) is None,
        member(json, key) is None ==> string_member(json, key) is None && number_member(
            json,
            key,
        ) is None && bool_member(json, key) is None,
        member(json, key) == Some(v) ==> {
            &&& match json_node(v) {
                Some(JsonNodeView::Text(s)) => string_member(json, key) == Some(s),
                _ => string_member(json, key) is None,
            }
            &&& match json_node(v) {
                Some(JsonNodeView::Number(n)) => number_member(json, key) == n,
                _ => number_member(json, key) is None,
            }
            &&& match json_node(v) {
                Some(JsonNodeView::Bool(b)) => bool_member(json, key) == Some(b),
                _ => bool_member(json, key) is None,
            }
        },
{
}

} // verus!
