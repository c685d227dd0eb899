//! The translator: from a schema's JSON tree to its ADF text.
//!
//! The spec functions of this module say what the text of each kind of node
//! is; the executable functions compute it. A translation either gives the
//! whole text or the first fault met, in the order of the schema.

use vstd::prelude::*;
use crate::json::{
    Json, Member, Tree, Entry, lookup, key_index, get, same_text, trees_of, entries_of,
    lemma_tree_of_children,
};
use crate::decimal::{decimal_text, push_decimal};

verus! {

/// Why a schema cannot be translated.
#[derive(Debug, PartialEq, Eq)]
pub enum SchemaError {
    /// The text is not JSON.
    InvalidJson,
    /// A number or a boolean stands where a type is expected.
    UnexpectedTypeTag,
    /// An object has no `type` that is one of `record`, `array`, `bytes`.
    UnexpectedObject,
    /// A string names no primitive type; the string.
    UnknownPrimitive(String),
    /// An array of types does not hold exactly one type besides `"null"`.
    InvalidUnion,
    /// A record has no `fields`.
    MissingFields,
    /// A record's `fields` is not an array.
    FieldsNotArray,
    /// An element of `fields` is not an object.
    FieldNotObject,
    /// A field has no `name`.
    MissingFieldName,
    /// A field's `name` is not a string.
    FieldNameNotString,
    /// A field has no `type`.
    MissingFieldType,
    /// An array type has no `items`.
    MissingItems,
    /// A `bytes` type has no `logicalType`.
    MissingLogicalType,
    /// A `logicalType` is not a string.
    LogicalTypeNotString,
    /// A `logicalType` is not `decimal`; what it is.
    UnsupportedLogicalType(String),
    /// A decimal has no `precision`.
    MissingPrecision,
    /// A decimal's `precision` is not an integer.
    PrecisionNotInteger,
    /// A decimal has no `scale`.
    MissingScale,
    /// A decimal's `scale` is not an integer.
    ScaleNotInteger,
}

/// The model of a `SchemaError`: the same fault, with a text as its characters.
pub enum Fault {
    InvalidJson,
    UnexpectedTypeTag,
    UnexpectedObject,
    UnknownPrimitive(Seq<char>),
    InvalidUnion,
    MissingFields,
    FieldsNotArray,
    FieldNotObject,
    MissingFieldName,
    FieldNameNotString,
    MissingFieldType,
    MissingItems,
    MissingLogicalType,
    LogicalTypeNotString,
    UnsupportedLogicalType(Seq<char>),
    MissingPrecision,
    PrecisionNotInteger,
    MissingScale,
    ScaleNotInteger,
}

impl View for SchemaError {
    type V = Fault;

    open spec fn view(&self) -> Fault {
        match *self {
            SchemaError::InvalidJson => Fault::InvalidJson,
            SchemaError::UnexpectedTypeTag => Fault::UnexpectedTypeTag,
            SchemaError::UnexpectedObject => Fault::UnexpectedObject,
            SchemaError::UnknownPrimitive(s) => Fault::UnknownPrimitive(s@),
            SchemaError::InvalidUnion => Fault::InvalidUnion,
            SchemaError::MissingFields => Fault::MissingFields,
            SchemaError::FieldsNotArray => Fault::FieldsNotArray,
            SchemaError::FieldNotObject => Fault::FieldNotObject,
            SchemaError::MissingFieldName => Fault::MissingFieldName,
            SchemaError::FieldNameNotString => Fault::FieldNameNotString,
            SchemaError::MissingFieldType => Fault::MissingFieldType,
            SchemaError::MissingItems => Fault::MissingItems,
            SchemaError::MissingLogicalType => Fault::MissingLogicalType,
            SchemaError::LogicalTypeNotString => Fault::LogicalTypeNotString,
            SchemaError::UnsupportedLogicalType(s) => Fault::UnsupportedLogicalType(s@),
            SchemaError::MissingPrecision => Fault::MissingPrecision,
            SchemaError::PrecisionNotInteger => Fault::PrecisionNotInteger,
            SchemaError::MissingScale => Fault::MissingScale,
            SchemaError::ScaleNotInteger => Fault::ScaleNotInteger,
        }
    }
}

/// The text of `n` spaces.
pub open spec fn spaces(n: nat) -> Seq<char> {
    Seq::new(n, |i: int| ' ')
}

/// The indentation of the given width, as a text of that many spaces.
pub fn indentation(width: usize) -> (r: String)
    ensures
        r@ == spaces(width as nat),
{
    let mut out = String::new();
    let mut i: usize = 0;
    proof {
        reveal_strlit(" ");
    }
    while i < width
        invariant
            i <= width,
            out@ =~= spaces(i as nat),
            " "@ =~= seq![' '],
        decreases width - i,
    {
        out.append(" ");
        i += 1;
    }
    out
}

/// The model of what an executable translation returned.
pub open spec fn outcome(r: Result<String, SchemaError>) -> Result<Seq<char>, Fault> {
    match r {
        Ok(s) => Ok(s@),
        Err(e) => Err(e@),
    }
}

/// The ADF name of the Avro primitive `name`, where it has one.
pub open spec fn adf_primitive(name: Seq<char>) -> Option<Seq<char>> {
    if name == "boolean"@ {
        Some("boolean"@)
    } else if name == "int"@ {
        Some("integer"@)
    } else if name == "long"@ {
        Some("long"@)
    } else if name == "float"@ {
        Some("float"@)
    } else if name == "double"@ {
        Some("double"@)
    } else if name == "string"@ {
        Some("string"@)
    } else {
        None
    }
}

/// The text of a type given by its name, or the name as a fault where it is
/// none of the primitives.
pub open spec fn primitive_text(name: Seq<char>) -> Result<Seq<char>, Fault> {
    match adf_primitive(name) {
        Some(t) => Ok(t),
        None => Err(Fault::UnknownPrimitive(name)),
    }
}

/// Whether `j` is the string `"null"`, which a union drops.
pub open spec fn is_null_marker(j: Tree) -> bool {
    j matches Tree::Text(s) && s == "null"@
}

/// How many of `alts` are not the null marker.
pub open spec fn candidate_count(alts: Seq<Tree>) -> nat
    decreases alts.len(),
{
    if alts.len() == 0 {
        0
    } else {
        (if is_null_marker(alts[0]) {
            0nat
        } else {
            1nat
        }) + candidate_count(alts.skip(1))
    }
}

/// The least index of an element of `alts` that is not the null marker, or the
/// length of `alts` where all are.
pub open spec fn first_candidate(alts: Seq<Tree>) -> int
    decreases alts.len(),
{
    if alts.len() == 0 {
        0
    } else if !is_null_marker(alts[0]) {
        0
    } else {
        1 + first_candidate(alts.skip(1))
    }
}

/// The text of a decimal: `decimal(<precision>,<scale>)`.
pub open spec fn decimal_type_text(object: Seq<Entry>) -> Result<Seq<char>, Fault> {
    match lookup(object, "precision"@) {
        None => Err(Fault::MissingPrecision),
        Some(Tree::Number(Some(p))) => match lookup(object, "scale"@) {
            None => Err(Fault::MissingScale),
            Some(Tree::Number(Some(s))) => Ok(
                "decimal("@ + decimal_text(p as int) + ","@ + decimal_text(s as int) + ")"@,
            ),
            Some(_) => Err(Fault::ScaleNotInteger),
        },
        Some(_) => Err(Fault::PrecisionNotInteger),
    }
}

/// The text of a `bytes` type, which must be a decimal.
pub open spec fn bytes_text(object: Seq<Entry>) -> Result<Seq<char>, Fault> {
    match lookup(object, "logicalType"@) {
        None => Err(Fault::MissingLogicalType),
        Some(Tree::Text(l)) => if l == "decimal"@ {
            decimal_type_text(object)
        } else {
            Err(Fault::UnsupportedLogicalType(l))
        },
        Some(_) => Err(Fault::LogicalTypeNotString),
    }
}

/// The text of the type node `j`, where `pad` is the indentation of the line
/// it stands on.
pub open spec fn node_text(pad: Seq<char>, j: Tree) -> Result<Seq<char>, Fault>
    decreases j, 0nat,
{
    match j {
        Tree::Null => Ok(Seq::empty()),
        Tree::Text(s) => primitive_text(s),
        Tree::Array(a) => union_text(pad, a),
        Tree::Object(o) => object_text(pad, o),
        _ => Err(Fault::UnexpectedTypeTag),
    }
}

/// The text of a union: that of its one alternative besides the null marker.
pub open spec fn union_text(pad: Seq<char>, alts: Seq<Tree>) -> Result<Seq<char>, Fault>
    decreases alts, 0nat,
{
    let i = first_candidate(alts);
    if candidate_count(alts) == 1 && 0 <= i < alts.len() {
        node_text(pad, alts[i])
    } else {
        Err(Fault::InvalidUnion)
    }
}

/// The text of a type given as an object, by its `type`.
pub open spec fn object_text(pad: Seq<char>, object: Seq<Entry>) -> Result<
    Seq<char>,
    Fault,
>
    decreases object, 1nat,
{
    match lookup(object, "type"@) {
        Some(Tree::Text(t)) => if t == "record"@ {
            record_text(pad, object)
        } else if t == "array"@ {
            array_text(pad, object)
        } else if t == "bytes"@ {
            bytes_text(object)
        } else {
            Err(Fault::UnexpectedObject)
        },
        _ => Err(Fault::UnexpectedObject),
    }
}

/// The text of an array type: that of its items, then `[]`.
pub open spec fn array_text(pad: Seq<char>, object: Seq<Entry>) -> Result<Seq<char>, Fault>
    decreases object, 0nat,
{
    match lookup(object, "items"@) {
        None => Err(Fault::MissingItems),
        Some(items) => match node_text(pad, items) {
            Err(e) => Err(e),
            Ok(t) => Ok(t + "[]"@),
        },
    }
}

/// The text of a record: `(`, a line for each field, then `)` at the
/// indentation of the record. The fields stand four spaces deeper.
pub open spec fn record_text(pad: Seq<char>, object: Seq<Entry>) -> Result<
    Seq<char>,
    Fault,
>
    decreases object, 0nat,
{
    match lookup(object, "fields"@) {
        None => Err(Fault::MissingFields),
        Some(Tree::Array(fields)) => match fields_text(pad + "    "@, fields, fields.len()) {
            Err(e) => Err(e),
            Ok(lines) => Ok("(\n"@ + lines + pad + ")"@),
        },
        Some(_) => Err(Fault::FieldsNotArray),
    }
}

/// The lines of the first `n` fields of a record, in their order, or the fault
/// of the first field among them that has one.
pub open spec fn fields_text(pad: Seq<char>, fields: Seq<Tree>, n: nat) -> Result<
    Seq<char>,
    Fault,
>
    decreases fields, n,
{
    if n == 0 || n > fields.len() {
        Ok(Seq::empty())
    } else {
        match fields_text(pad, fields, (n - 1) as nat) {
            Err(e) => Err(e),
            Ok(before) => match field_text(pad, fields[n - 1], n == fields.len()) {
                Err(e) => Err(e),
                Ok(line) => Ok(before + line),
            },
        }
    }
}

/// The line of one field: `<pad><name> as <type>`, then a comma unless the
/// field is the last of its record, then a line break.
pub open spec fn field_text(pad: Seq<char>, field: Tree, last: bool) -> Result<
    Seq<char>,
    Fault,
>
    decreases field, 0nat,
{
    match field {
        Tree::Object(entries) => match lookup(entries, "name"@) {
            None => Err(Fault::MissingFieldName),
            Some(Tree::Text(name)) => match lookup(entries, "type"@) {
                None => Err(Fault::MissingFieldType),
                Some(t) => match node_text(pad, t) {
                    Err(e) => Err(e),
                    Ok(text) => Ok(
                        pad + name + " as "@ + text + (if last {
                            "\n"@
                        } else {
                            ",\n"@
                        }),
                    ),
                },
            },
            Some(_) => Err(Fault::FieldNameNotString),
        },
        _ => Err(Fault::FieldNotObject),
    }
}

/// Once a field among the first `n` has a fault, that fault is the result for
/// every longer run of fields.
pub proof fn lemma_fault_stays(pad: Seq<char>, fields: Seq<Tree>, n: nat, m: nat)
    requires
        n <= m <= fields.len(),
        fields_text(pad, fields, n) is Err,
    ensures
        fields_text(pad, fields, m) == fields_text(pad, fields, n),
    decreases m,
{
    if n < m {
        lemma_fault_stays(pad, fields, n, (m - 1) as nat);
    }
}

/// Translates a type given by its name.
pub fn handle_json_string_type(t: &String) -> (r: Result<String, SchemaError>)
    ensures
        outcome(r) == primitive_text(t@),
{
    if same_text(t, "boolean") {
        Ok(String::from_str("boolean"))
    } else if same_text(t, "int") {
        Ok(String::from_str("integer"))
    } else if same_text(t, "long") {
        Ok(String::from_str("long"))
    } else if same_text(t, "float") {
        Ok(String::from_str("float"))
    } else if same_text(t, "double") {
        Ok(String::from_str("double"))
    } else if same_text(t, "string") {
        Ok(String::from_str("string"))
    } else {
        Err(SchemaError::UnknownPrimitive(t.clone()))
    }
}

/// Translates a decimal, given as the entries of its object.
pub fn handle_decimal_avro_type(object: &Vec<Member>) -> (r: Result<String, SchemaError>)
    ensures
        outcome(r) == decimal_type_text(entries_of(object@)),
{
    let precision = match get(object, "precision") {
        None => {
            return Err(SchemaError::MissingPrecision);
        },
        Some(p) => match p.as_i64() {
            None => {
                return Err(SchemaError::PrecisionNotInteger);
            },
            Some(p) => p,
        },
    };
    let scale = match get(object, "scale") {
        None => {
            return Err(SchemaError::MissingScale);
        },
        Some(s) => match s.as_i64() {
            None => {
                return Err(SchemaError::ScaleNotInteger);
            },
            Some(s) => s,
        },
    };
    let mut out = String::from_str("decimal(");
    push_decimal(&mut out, precision);
    out.append(",");
    push_decimal(&mut out, scale);
    out.append(")");
    Ok(out)
}

/// Translates a `bytes` type, given as the entries of its object.
pub fn handle_avro_bytes_type(object: &Vec<Member>) -> (r: Result<String, SchemaError>)
    ensures
        outcome(r) == bytes_text(entries_of(object@)),
{
    match get(object, "logicalType") {
        None => Err(SchemaError::MissingLogicalType),
        Some(l) => match l.as_string() {
            None => Err(SchemaError::LogicalTypeNotString),
            Some(name) => if same_text(name, "decimal") {
                handle_decimal_avro_type(object)
            } else {
                Err(SchemaError::UnsupportedLogicalType(name.clone()))
            },
        },
    }
}

/// Whether `j` is the string `"null"`.
pub fn is_null_type(j: &Json) -> (r: bool)
    ensures
        r == is_null_marker(j@),
{
    match j {
        Json::Text(s) => same_text(s, "null"),
        _ => false,
    }
}

/// Translates the type node `json`; `pad` is the indentation of the line that
/// the text will stand on.
pub fn handle_any_json_element(pad: &str, json: &Json) -> (r: Result<String, SchemaError>)
    ensures
        outcome(r) == node_text(pad@, json@),
    decreases json, 0nat,
{
    proof {
        lemma_tree_of_children(*json);
    }
    match json {
        Json::Null => Ok(String::new()),
        Json::Text(s) => handle_json_string_type(s),
        Json::Array(a) => handle_json_array_type(pad, a),
        Json::Object(o) => handle_json_map_element(pad, o),
        _ => Err(SchemaError::UnexpectedTypeTag),
    }
}

/// Translates a type given as an object, by its `type`.
pub fn handle_json_map_element(pad: &str, object: &Vec<Member>) -> (r: Result<
    String,
    SchemaError,
>)
    ensures
        outcome(r) == object_text(pad@, entries_of(object@)),
    decreases object, 1nat,
{
    if let Some(Json::Text(t)) = get(object, "type") {
        if same_text(t, "record") {
            return handle_avro_record_type(pad, object);
        } else if same_text(t, "array") {
            return handle_avro_array_type(pad, object);
        } else if same_text(t, "bytes") {
            return handle_avro_bytes_type(object);
        }
    }
    Err(SchemaError::UnexpectedObject)
}

/// Translates a union: an array of types of which exactly one is not the
/// string `"null"`.
pub fn handle_json_array_type(pad: &str, array: &Vec<Json>) -> (r: Result<String, SchemaError>)
    ensures
        outcome(r) == union_text(pad@, trees_of(array@)),
    decreases array, 0nat,
{
    let ghost alts = trees_of(array@);
    let mut count: usize = 0;
    let mut first: usize = 0;
    let mut i: usize = 0;
    assert(alts.skip(0) =~= alts);
    while i < array.len()
        invariant
            0 <= i <= array@.len(),
            alts == trees_of(array@),
            count <= i,
            candidate_count(alts) == count + candidate_count(alts.skip(i as int)),
            count == 0 ==> first_candidate(alts) == i + first_candidate(alts.skip(i as int)),
            count > 0 ==> first_candidate(alts) == first && first < i,
        decreases array@.len() - i,
    {
        assert(alts.skip(i as int)[0] == alts[i as int]);
        assert(alts.skip(i as int).skip(1) =~= alts.skip(i + 1));
        if !is_null_type(&array[i]) {
            if count == 0 {
                first = i;
            }
            count += 1;
        }
        i += 1;
    }
    if count != 1 {
        return Err(SchemaError::InvalidUnion);
    }
    handle_any_json_element(pad, &array[first])
}

/// Translates an array type, given as the entries of its object.
pub fn handle_avro_array_type(pad: &str, object: &Vec<Member>) -> (r: Result<String, SchemaError>)
    ensures
        outcome(r) == array_text(pad@, entries_of(object@)),
    decreases object, 0nat,
{
    match get(object, "items") {
        None => Err(SchemaError::MissingItems),
        Some(items) => match handle_any_json_element(pad, items) {
            Err(e) => Err(e),
            Ok(mut text) => {
                text.append("[]");
                Ok(text)
            },
        },
    }
}

/// Translates one field of a record to its line; `pad` is the indentation of
/// the fields, and `last` says whether the field is the last of its record.
pub fn handle_record_field(pad: &str, field: &Json, last: bool) -> (r: Result<
    String,
    SchemaError,
>)
    ensures
        outcome(r) == field_text(pad@, field@, last),
    decreases field, 0nat,
{
    let entries = match field.as_object_value() {
        None => {
            return Err(SchemaError::FieldNotObject);
        },
        Some(entries) => entries,
    };
    let name = match get(entries, "name") {
        None => {
            return Err(SchemaError::MissingFieldName);
        },
        Some(n) => match n.as_string() {
            None => {
                return Err(SchemaError::FieldNameNotString);
            },
            Some(name) => name,
        },
    };
    let node = match get(entries, "type") {
        None => {
            return Err(SchemaError::MissingFieldType);
        },
        Some(node) => node,
    };
    let text = match handle_any_json_element(pad, node) {
        Err(e) => {
            return Err(e);
        },
        Ok(text) => text,
    };
    let mut line = String::from_str(pad);
    line.append(name.as_str());
    line.append(" as ");
    line.append(text.as_str());
    if last {
        line.append("\n");
    } else {
        line.append(",\n");
    }
    Ok(line)
}

/// Translates a record, given as the entries of its object.
pub fn handle_avro_record_type(pad: &str, object: &Vec<Member>) -> (r: Result<
    String,
    SchemaError,
>)
    ensures
        outcome(r) == record_text(pad@, entries_of(object@)),
    decreases object, 0nat,
{
    let fields = match get(object, "fields") {
        None => {
            return Err(SchemaError::MissingFields);
        },
        Some(fields) => match fields.as_array() {
            None => {
                return Err(SchemaError::FieldsNotArray);
            },
            Some(fields) => fields,
        },
    };
    let mut inner = String::from_str(pad);
    inner.append("    ");
    let mut out = String::from_str("(\n");
    let ghost mut lines: Seq<char> = Seq::empty();
    let n = fields.len();
    let mut k: usize = 0;
    while k < n
        invariant
            0 <= k <= n,
            n == fields@.len(),
            inner@ == pad@ + "    "@,
            fields_text(inner@, trees_of(fields@), k as nat) == Ok::<Seq<char>, Fault>(lines),
            out@ == "(\n"@ + lines,
            lookup(entries_of(object@), "fields"@) == Some(Tree::Array(trees_of(fields@))),
            0 <= key_index(entries_of(object@), "fields"@) < object@.len(),
            object@[key_index(entries_of(object@), "fields"@)].value == Json::Array(*fields),
        decreases n - k,
    {
        match handle_record_field(inner.as_str(), &fields[k], k + 1 == n) {
            Err(e) => {
                proof {
                    lemma_fault_stays(inner@, trees_of(fields@), (k + 1) as nat, n as nat);
                }
                return Err(e);
            },
            Ok(line) => {
                out.append(line.as_str());
                proof {
                    lines = lines + line@;
                    assert(out@ =~= "(\n"@ + lines);
                }
            },
        }
        k += 1;
    }
    out.append(pad);
    out.append(")");
    assert(out@ =~= "(\n"@ + lines + pad@ + ")"@);
    Ok(out)
}

} // verus!
