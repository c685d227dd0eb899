//! Schemas given as JSON text.
//!
//! The text is parsed by `serde_json`. What the parser makes of a text is not
//! proved here: it has a name, `parsed_text`, and so has the tree that one of
//! the parser's values holds, `value_tree`. The parser's value is read through
//! its own methods, each behind a function that says what the method gives in
//! terms of that tree. The copy into a `Json`, and what is done with it, is
//! proved from there.

use vstd::prelude::*;
use crate::json::{Json, Member, Tree, Entry, lemma_tree_of_children};
use crate::translate::{SchemaError, Fault, outcome, node_text, handle_any_json_element};

verus! {

/// `serde_json::Value`, the parser's own tree. Nothing is known of a value of
/// it here but what `value_tree` names.
#[verifier::external_type_specification]
#[verifier::external_body]
pub struct ExValue(serde_json::Value);

/// `serde_json::Map`, the entries of an object in a `serde_json::Value`.
#[verifier::external_type_specification]
#[verifier::external_body]
#[verifier::reject_recursive_types(K)]
#[verifier::reject_recursive_types(V)]
pub struct ExMap<K, V>(serde_json::Map<K, V>);

/// `serde_json::Error`, the parser's fault. It is carried, never read.
#[verifier::external_type_specification]
#[verifier::external_body]
pub struct ExError(serde_json::Error);

/// The tree that a `serde_json::Value` holds: its variant, and under it the
/// boolean, the number as far as it is an integer in the range of `i64`, the
/// string, the elements in their order, or the entries in the order in which
/// the value's map hands them out.
pub uninterp spec fn value_tree(value: serde_json::Value) -> Tree;

/// The entries that a `serde_json::Map` holds, in the order in which it hands
/// them out.
pub uninterp spec fn map_entries(map: serde_json::Map<String, serde_json::Value>) -> Seq<Entry>;

/// What `serde_json::from_str` makes of `text`: the tree of the value it
/// returns, or nothing where it returns an error.
pub uninterp spec fn parsed_text(text: Seq<char>) -> Option<Tree>;

/// Calls `serde_json::from_str` for a `serde_json::Value`. The contract claims
/// only that the outcome is a function of the text, and gives it its name.
#[verifier::external_body]
fn parse_value(text: &str) -> (r: Result<serde_json::Value, serde_json::Error>)
    ensures
        parsed_text(text@) == (match r {
            Ok(value) => Some(value_tree(value)),
            Err(_) => None,
        }),
{
    serde_json::from_str::<serde_json::Value>(text)
}

/// Calls `serde_json::Value::is_null`, which is true of the variant `Null`
/// and of no other.
#[verifier::external_body]
fn value_is_null(value: &serde_json::Value) -> (r: bool)
    ensures
        r == (value_tree(*value) is Null),
{
    value.is_null()
}

/// Calls `serde_json::Value::as_bool`, which gives the boolean of the variant
/// `Bool` and nothing of any other.
#[verifier::external_body]
fn value_as_bool(value: &serde_json::Value) -> (r: Option<bool>)
    ensures
        r == (match value_tree(*value) {
            Tree::Bool(b) => Some(b),
            _ => None,
        }),
{
    value.as_bool()
}

/// Calls `serde_json::Value::is_number`, which is true of the variant
/// `Number` and of no other.
#[verifier::external_body]
fn value_is_number(value: &serde_json::Value) -> (r: bool)
    ensures
        r == (value_tree(*value) is Number),
{
    value.is_number()
}

/// Calls `serde_json::Value::as_i64`, which gives the number where the value
/// is an integer in the range of `i64`, and nothing otherwise.
#[verifier::external_body]
fn value_as_i64(value: &serde_json::Value) -> (r: Option<i64>)
    ensures
        r == (match value_tree(*value) {
            Tree::Number(n) => n,
            _ => None,
        }),
{
    value.as_i64()
}

/// Calls `serde_json::Value::as_str`, which gives the string of the variant
/// `String` and nothing of any other.
#[verifier::external_body]
fn value_as_str(value: &serde_json::Value) -> (r: Option<&str>)
    ensures
        match r {
            Some(s) => value_tree(*value) == Tree::Text(s@),
            None => !(value_tree(*value) is Text),
        },
{
    value.as_str()
}

/// Calls `serde_json::Value::as_array`, which gives the elements of the
/// variant `Array` and nothing of any other.
#[verifier::external_body]
fn value_as_array(value: &serde_json::Value) -> (r: Option<&Vec<serde_json::Value>>)
    ensures
        match r {
            Some(a) => value_tree(*value) == Tree::Array(
                Seq::new(a@.len(), |i: int| value_tree(a@[i])),
            ),
            None => !(value_tree(*value) is Array),
        },
{
    value.as_array()
}

/// Calls `serde_json::Value::as_object`, which gives the map of the variant
/// `Object` and nothing of any other.
#[verifier::external_body]
fn value_as_object(value: &serde_json::Value) -> (r: Option<
    &serde_json::Map<String, serde_json::Value>,
>)
    ensures
        match r {
            Some(m) => value_tree(*value) == Tree::Object(map_entries(*m)),
            None => !(value_tree(*value) is Object),
        },
{
    value.as_object()
}

/// Calls `serde_json::Map::iter` and collects what it hands out: each entry
/// of the map once, as its key and its value.
#[verifier::external_body]
fn map_members(map: &serde_json::Map<String, serde_json::Value>) -> (r: Vec<
    (&String, &serde_json::Value),
>)
    ensures
        r@.len() == map_entries(*map).len(),
        forall|i: int|
            0 <= i < r@.len() ==> (#[trigger] map_entries(*map)[i]) == (Entry {
                key: r@[i].0@,
                value: value_tree(*r@[i].1),
            }),
{
    map.iter().collect()
}

/// Copies a `serde_json::Value` into a `Json` that holds the same tree.
fn json_of_value(value: &serde_json::Value) -> (r: Json)
    ensures
        r@ == value_tree(*value),
    decreases value_tree(*value),
{
    if value_is_null(value) {
        Json::Null
    } else if let Some(b) = value_as_bool(value) {
        Json::Bool(b)
    } else if value_is_number(value) {
        Json::Number(value_as_i64(value))
    } else if let Some(s) = value_as_str(value) {
        Json::Text(String::from_str(s))
    } else if let Some(a) = value_as_array(value) {
        let mut items: Vec<Json> = Vec::new();
        let mut i: usize = 0;
        while i < a.len()
            invariant
                0 <= i <= a@.len(),
                items@.len() == i,
                value_tree(*value) == Tree::Array(Seq::new(a@.len(), |k: int| value_tree(a@[k]))),
                forall|k: int| 0 <= k < i ==> (#[trigger] items@[k])@ == value_tree(a@[k]),
            decreases a@.len() - i,
        {
            assert(value_tree(*value)->Array_0[i as int] == value_tree(a@[i as int]));
            let item = json_of_value(&a[i]);
            items.push(item);
            i += 1;
        }
        let r = Json::Array(items);
        proof {
            lemma_tree_of_children(r);
            assert(r@->Array_0 =~= value_tree(*value)->Array_0);
        }
        r
    } else {
        match value_as_object(value) {
            Some(m) => {
                let pairs = map_members(m);
                let mut members: Vec<Member> = Vec::new();
                let mut i: usize = 0;
                while i < pairs.len()
                    invariant
                        0 <= i <= pairs@.len(),
                        members@.len() == i,
                        value_tree(*value) == Tree::Object(map_entries(*m)),
                        pairs@.len() == map_entries(*m).len(),
                        forall|k: int|
                            0 <= k < pairs@.len() ==> (#[trigger] map_entries(*m)[k]) == (Entry {
                                key: pairs@[k].0@,
                                value: value_tree(*pairs@[k].1),
                            }),
                        forall|k: int|
                            0 <= k < i ==> (#[trigger] members@[k])@ == map_entries(*m)[k],
                    decreases pairs@.len() - i,
                {
                    assert(value_tree(*value)->Object_0[i as int].value == value_tree(
                        *pairs@[i as int].1,
                    ));
                    let key = pairs[i].0.clone();
                    let item = json_of_value(pairs[i].1);
                    members.push(Member { key, value: item });
                    i += 1;
                }
                let r = Json::Object(members);
                proof {
                    lemma_tree_of_children(r);
                    assert(r@->Object_0 =~= map_entries(*m));
                }
                r
            },
            // A tree is of one of six kinds, and five are behind.
            None => unreached(),
        }
    }
}

/// The tree of a schema given as JSON text, or `InvalidJson` where the text
/// is not JSON.
pub open spec fn document(text: Seq<char>) -> Result<Tree, Fault> {
    match parsed_text(text) {
        Some(tree) => Ok(tree),
        None => Err(Fault::InvalidJson),
    }
}

/// The ADF text of the schema that `parsed` holds, set at the left margin.
pub open spec fn schema_text(parsed: Result<Tree, Fault>) -> Result<Seq<char>, Fault> {
    match parsed {
        Ok(tree) => node_text(Seq::empty(), tree),
        Err(e) => Err(e),
    }
}

/// Parses JSON text into its tree.
pub fn parse_document(text: &str) -> (r: Result<Json, SchemaError>)
    ensures
        (match r {
            Ok(json) => Ok(json@),
            Err(e) => Err(e@),
        }) == document(text@),
{
    match parse_value(text) {
        Ok(value) => Ok(json_of_value(&value)),
        Err(_) => Err(SchemaError::InvalidJson),
    }
}

/// Translates an Avro schema, given as JSON text, into ADF text. Nothing is
/// returned of a schema that has a fault but the fault.
pub fn convert_avro_2_adf_schema(avro: &str) -> (r: Result<String, SchemaError>)
    ensures
        outcome(r) == schema_text(document(avro@)),
{
    match parse_document(avro) {
        Err(e) => Err(e),
        Ok(json) => {
            proof {
                reveal_strlit("");
                assert(""@ =~= Seq::<char>::empty());
            }
            handle_any_json_element("", &json)
        },
    }
}

} // verus!
