//! The JSON tree that a schema is read from, and its mathematical model.

use vstd::prelude::*;

verus! {

/// One `key: value` entry of a JSON object.
#[derive(Debug, PartialEq, Eq)]
pub struct Member {
    pub key: String,
    pub value: Json,
}

/// A JSON value.
///
/// A number holds its value where it is an integer in the range of `i64`, and
/// nothing otherwise: no more of a number is ever read from a schema.
#[derive(Debug, PartialEq, Eq)]
pub enum Json {
    Null,
    Bool(bool),
    Number(Option<i64>),
    Text(String),
    Array(Vec<Json>),
    Object(Vec<Member>),
}

/// The model of a `Member`.
pub struct Entry {
    pub key: Seq<char>,
    pub value: Tree,
}

/// The model of a `Json`: the same tree over sequences.
pub enum Tree {
    Null,
    Bool(bool),
    Number(Option<i64>),
    Text(Seq<char>),
    Array(Seq<Tree>),
    Object(Seq<Entry>),
}

/// The model of the value `j`.
pub open spec fn tree_of(j: Json) -> Tree
    decreases j,
{
    match j {
        Json::Null => Tree::Null,
        Json::Bool(b) => Tree::Bool(b),
        Json::Number(n) => Tree::Number(n),
        Json::Text(s) => Tree::Text(s@),
        Json::Array(a) => Tree::Array(
            Seq::new(
                a@.len(),
                |i: int|
                    if 0 <= i < a@.len() {
                        tree_of(a@[i])
                    } else {
                        Tree::Null
                    },
            ),
        ),
        Json::Object(o) => Tree::Object(
            Seq::new(
                o@.len(),
                |i: int|
                    if 0 <= i < o@.len() {
                        Entry { key: o@[i].key@, value: tree_of(o@[i].value) }
                    } else {
                        Entry { key: Seq::empty(), value: Tree::Null }
                    },
            ),
        ),
    }
}

/// The models of the values `items`, in their order.
pub open spec fn trees_of(items: Seq<Json>) -> Seq<Tree> {
    Seq::new(items.len(), |i: int| tree_of(items[i]))
}

/// The models of the entries `members`, in their order.
pub open spec fn entries_of(members: Seq<Member>) -> Seq<Entry> {
    Seq::new(members.len(), |i: int| members[i]@)
}

impl View for Member {
    type V = Entry;

    open spec fn view(&self) -> Entry {
        Entry { key: self.key@, value: tree_of(self.value) }
    }
}

impl View for Json {
    type V = Tree;

    open spec fn view(&self) -> Tree {
        tree_of(*self)
    }
}

/// The model of an array is that of its elements, and the model of an object
/// that of its entries.
pub proof fn lemma_tree_of_children(j: Json)
    ensures
        j matches Json::Array(a) ==> j@ == Tree::Array(trees_of(a@)),
        j matches Json::Object(o) ==> j@ == Tree::Object(entries_of(o@)),
{
    match j {
        Json::Array(a) => {
            assert(j@->Array_0 =~= trees_of(a@));
        },
        Json::Object(o) => {
            assert(j@->Object_0 =~= entries_of(o@));
        },
        _ => {},
    }
}

/// The least index at which `entries` holds `key`, or the length of `entries`
/// where no entry has that key.
pub open spec fn key_index(entries: Seq<Entry>, key: Seq<char>) -> int
    decreases entries.len(),
{
    if entries.len() == 0 {
        0
    } else if entries[0].key == key {
        0
    } else {
        1 + key_index(entries.skip(1), key)
    }
}

/// The value of the first entry of `entries` under `key`.
pub open spec fn lookup(entries: Seq<Entry>, key: Seq<char>) -> Option<Tree> {
    let i = key_index(entries, key);
    if 0 <= i < entries.len() {
        Some(entries[i].value)
    } else {
        None
    }
}

/// Of several entries under one key the first is the one looked up:
/// `key_index` is an index into `entries` or their number; an entry it points
/// at has the key, and no entry before it has.
pub proof fn law_first_entry(entries: Seq<Entry>, key: Seq<char>)
    ensures
        0 <= key_index(entries, key) <= entries.len(),
        key_index(entries, key) < entries.len() ==> entries[key_index(entries, key)].key == key,
        forall|k: int| 0 <= k < key_index(entries, key) ==> (#[trigger] entries[k]).key != key,
    decreases entries.len(),
{
    if entries.len() != 0 && entries[0].key != key {
        let rest = entries.skip(1);
        law_first_entry(rest, key);
        assert forall|k: int| 0 <= k < key_index(entries, key) implies (#[trigger] entries[k]).key
            != key by {
            if k > 0 {
                assert(entries[k] == rest[k - 1]);
            }
        }
    }
}

/// Whether the string `a` and the text `b` hold the same characters.
pub fn same_text(a: &String, b: &str) -> (r: bool)
    ensures
        r == (a@ == b@),
{
    let other = String::from_str(b);
    *a == other
}

/// The value of the first entry of `object` under `key`, if there is one.
pub fn get<'a>(object: &'a Vec<Member>, key: &str) -> (r: Option<&'a Json>)
    ensures
        match r {
            Some(v) => {
                let i = key_index(entries_of(object@), key@);
                0 <= i < object@.len() && *v == object@[i].value
            },
            None => key_index(entries_of(object@), key@) == object@.len(),
        },
        (match r {
            Some(v) => Some(v@),
            None => None,
        }) == lookup(entries_of(object@), key@),
{
    let ghost entries = entries_of(object@);
    let mut i: usize = 0;
    assert(entries.skip(0) =~= entries);
    while i < object.len()
        invariant
            0 <= i <= object@.len(),
            entries == entries_of(object@),
            key_index(entries, key@) == i + key_index(entries.skip(i as int), key@),
        decreases object@.len() - i,
    {
        assert(entries.skip(i as int)[0] == entries[i as int]);
        if same_text(&object[i].key, key) {
            return Some(&object[i].value);
        }
        assert(entries.skip(i as int).skip(1) =~= entries.skip(i + 1));
        i += 1;
    }
    None
}

impl Json {
    /// The elements, where the value is an array.
    pub fn as_array(&self) -> (r: Option<&Vec<Json>>)
        ensures
            match r {
                Some(a) => *self == Json::Array(*a) && self@ == Tree::Array(trees_of(a@)),
                None => !(self is Array) && !(self@ is Array),
            },
    {
        proof {
            lemma_tree_of_children(*self);
        }
        match self {
            Json::Array(a) => Some(a),
            _ => None,
        }
    }

    /// The entries, where the value is an object.
    pub fn as_object_value(&self) -> (r: Option<&Vec<Member>>)
        ensures
            match r {
                Some(o) => *self == Json::Object(*o) && self@ == Tree::Object(entries_of(o@)),
                None => !(self is Object) && !(self@ is Object),
            },
    {
        proof {
            lemma_tree_of_children(*self);
        }
        match self {
            Json::Object(o) => Some(o),
            _ => None,
        }
    }

    /// The text, where the value is a string.
    pub fn as_string(&self) -> (r: Option<&String>)
        ensures
            match r {
                Some(s) => *self == Json::Text(*s) && self@ == Tree::Text(s@),
                None => !(self is Text) && !(self@ is Text),
            },
    {
        match self {
            Json::Text(s) => Some(s),
            _ => None,
        }
    }

    /// The integer, where the value is a number that is an integer in the
    /// range of `i64`.
    pub fn as_i64(&self) -> (r: Option<i64>)
        ensures
            r == (match self@ {
                Tree::Number(n) => n,
                _ => None,
            }),
    {
        match self {
            Json::Number(n) => *n,
            _ => None,
        }
    }
}

} // verus!
