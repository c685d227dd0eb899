//! What holds of every translation, proved from the definitions of the
//! translator.

use vstd::prelude::*;
use crate::json::{Tree, Entry, lookup};
use crate::translate::{
    Fault, spaces, is_null_marker, candidate_count, first_candidate,
    bytes_text, node_text, union_text, object_text, array_text, record_text, fields_text,
    field_text, lemma_fault_stays,
};
use crate::decimal::decimal_text;

verus! {

/// A name translates to its ADF name and to nothing more where it is one of
/// the six primitive names, whatever the indentation; any other name is
/// refused, and the fault holds it.
pub proof fn law_primitive_names(pad: Seq<char>, name: Seq<char>)
    ensures
        node_text(pad, Tree::Text(name)) == (if name == seq!['b', 'o', 'o', 'l', 'e', 'a', 'n'] {
            Ok(seq!['b', 'o', 'o', 'l', 'e', 'a', 'n'])
        } else if name == seq!['i', 'n', 't'] {
            Ok(seq!['i', 'n', 't', 'e', 'g', 'e', 'r'])
        } else if name == seq!['l', 'o', 'n', 'g'] {
            Ok(seq!['l', 'o', 'n', 'g'])
        } else if name == seq!['f', 'l', 'o', 'a', 't'] {
            Ok(seq!['f', 'l', 'o', 'a', 't'])
        } else if name == seq!['d', 'o', 'u', 'b', 'l', 'e'] {
            Ok(seq!['d', 'o', 'u', 'b', 'l', 'e'])
        } else if name == seq!['s', 't', 'r', 'i', 'n', 'g'] {
            Ok(seq!['s', 't', 'r', 'i', 'n', 'g'])
        } else {
            Err(Fault::UnknownPrimitive(name))
        }),
{
    reveal_strlit("boolean");
    reveal_strlit("int");
    reveal_strlit("integer");
    reveal_strlit("long");
    reveal_strlit("float");
    reveal_strlit("double");
    reveal_strlit("string");
    assert("boolean"@ =~= seq!['b', 'o', 'o', 'l', 'e', 'a', 'n']);
    assert("int"@ =~= seq!['i', 'n', 't']);
    assert("integer"@ =~= seq!['i', 'n', 't', 'e', 'g', 'e', 'r']);
    assert("long"@ =~= seq!['l', 'o', 'n', 'g']);
    assert("float"@ =~= seq!['f', 'l', 'o', 'a', 't']);
    assert("double"@ =~= seq!['d', 'o', 'u', 'b', 'l', 'e']);
    assert("string"@ =~= seq!['s', 't', 'r', 'i', 'n', 'g']);
}

/// Alternatives that are all the null marker count as none.
proof fn lemma_no_candidate(alts: Seq<Tree>)
    requires
        forall|k: int| 0 <= k < alts.len() ==> is_null_marker(#[trigger] alts[k]),
    ensures
        candidate_count(alts) == 0,
    decreases alts.len(),
{
    if alts.len() != 0 {
        let rest = alts.skip(1);
        assert forall|k: int| 0 <= k < rest.len() implies is_null_marker(#[trigger] rest[k]) by {
            assert(rest[k] == alts[k + 1]);
        }
        lemma_no_candidate(rest);
    }
}

/// An alternative that is not the null marker is counted.
proof fn lemma_some_candidate(alts: Seq<Tree>, i: int)
    requires
        0 <= i < alts.len(),
        !is_null_marker(alts[i]),
    ensures
        candidate_count(alts) >= 1,
    decreases alts.len(),
{
    if i > 0 {
        let rest = alts.skip(1);
        assert(rest[i - 1] == alts[i]);
        lemma_some_candidate(rest, i - 1);
    }
}

/// Where one alternative alone is not the null marker, it is the first and the
/// only one counted.
proof fn lemma_sole_candidate(alts: Seq<Tree>, i: int)
    requires
        0 <= i < alts.len(),
        !is_null_marker(alts[i]),
        forall|k: int| 0 <= k < alts.len() && k != i ==> is_null_marker(#[trigger] alts[k]),
    ensures
        candidate_count(alts) == 1,
        first_candidate(alts) == i,
    decreases alts.len(),
{
    let rest = alts.skip(1);
    if i == 0 {
        assert forall|k: int| 0 <= k < rest.len() implies is_null_marker(#[trigger] rest[k]) by {
            assert(rest[k] == alts[k + 1]);
        }
        lemma_no_candidate(rest);
    } else {
        assert(is_null_marker(alts[0]));
        assert(rest[i - 1] == alts[i]);
        assert forall|k: int| 0 <= k < rest.len() && k != i - 1 implies is_null_marker(
            #[trigger] rest[k],
        ) by {
            assert(rest[k] == alts[k + 1]);
        }
        lemma_sole_candidate(rest, i - 1);
    }
}

/// Two alternatives that are not the null marker are both counted.
proof fn lemma_two_candidates(alts: Seq<Tree>, i: int, j: int)
    requires
        0 <= i < j < alts.len(),
        !is_null_marker(alts[i]),
        !is_null_marker(alts[j]),
    ensures
        candidate_count(alts) >= 2,
    decreases alts.len(),
{
    let rest = alts.skip(1);
    assert(rest[j - 1] == alts[j]);
    if i == 0 {
        lemma_some_candidate(rest, j - 1);
    } else {
        assert(rest[i - 1] == alts[i]);
        lemma_two_candidates(rest, i - 1, j - 1);
    }
}

/// A union in which exactly one alternative is not the string `"null"`
/// translates as that alternative does by itself, fault for fault.
pub proof fn law_nullable_union(pad: Seq<char>, alts: Seq<Tree>, i: int)
    requires
        0 <= i < alts.len(),
        !is_null_marker(alts[i]),
        forall|k: int| 0 <= k < alts.len() && k != i ==> is_null_marker(#[trigger] alts[k]),
    ensures
        node_text(pad, Tree::Array(alts)) == node_text(pad, alts[i]),
{
    lemma_sole_candidate(alts, i);
}

/// A union in which every alternative is the string `"null"`, an empty one
/// too, is refused.
pub proof fn law_union_without_type(pad: Seq<char>, alts: Seq<Tree>)
    requires
        forall|k: int| 0 <= k < alts.len() ==> is_null_marker(#[trigger] alts[k]),
    ensures
        node_text(pad, Tree::Array(alts)) == Err::<Seq<char>, Fault>(
            Fault::InvalidUnion,
        ),
{
    lemma_no_candidate(alts);
}

/// A union in which two alternatives are not the string `"null"` is refused.
pub proof fn law_union_of_several(pad: Seq<char>, alts: Seq<Tree>, i: int, j: int)
    requires
        0 <= i < alts.len(),
        0 <= j < alts.len(),
        i != j,
        !is_null_marker(alts[i]),
        !is_null_marker(alts[j]),
    ensures
        node_text(pad, Tree::Array(alts)) == Err::<Seq<char>, Fault>(
            Fault::InvalidUnion,
        ),
{
    if i < j {
        lemma_two_candidates(alts, i, j);
    } else {
        lemma_two_candidates(alts, j, i);
    }
}

/// An array type translates to the text of its items with `[]` set directly
/// behind it, and has the fault of its items where they have one.
pub proof fn law_array_of(pad: Seq<char>, object: Seq<Entry>, items: Tree)
    requires
        lookup(object, "type"@) matches Some(Tree::Text(kind)) && kind == seq![
            'a',
            'r',
            'r',
            'a',
            'y',
        ],
        lookup(object, "items"@) == Some(items),
    ensures
        node_text(pad, Tree::Object(object)) == (match node_text(pad, items) {
            Ok(text) => Ok(text + seq!['[', ']']),
            Err(e) => Err(e),
        }),
{
    reveal_strlit("array");
    reveal_strlit("record");
    reveal_strlit("[]");
    assert("array"@ =~= seq!['a', 'r', 'r', 'a', 'y']);
    assert("[]"@ =~= seq!['[', ']']);
    assert(node_text(pad, Tree::Object(object)) == object_text(pad, object));
    assert(object_text(pad, object) == array_text(pad, object));
}

/// A decimal translates to `decimal(`, its precision, a comma, its scale and
/// `)`, the two numbers in decimal.
pub proof fn law_decimal(pad: Seq<char>, object: Seq<Entry>, precision: i64, scale: i64)
    requires
        lookup(object, "type"@) matches Some(Tree::Text(kind)) && kind == seq![
            'b',
            'y',
            't',
            'e',
            's',
        ],
        lookup(object, "logicalType"@) matches Some(Tree::Text(logical)) && logical == seq![
            'd',
            'e',
            'c',
            'i',
            'm',
            'a',
            'l',
        ],
        lookup(object, "precision"@) == Some(Tree::Number(Some(precision))),
        lookup(object, "scale"@) == Some(Tree::Number(Some(scale))),
    ensures
        node_text(pad, Tree::Object(object)) == Ok::<Seq<char>, Fault>(
            seq!['d', 'e', 'c', 'i', 'm', 'a', 'l', '('] + decimal_text(precision as int) + seq![
                ',',
            ] + decimal_text(scale as int) + seq![')'],
        ),
{
    reveal_strlit("array");
    reveal_strlit("record");
    reveal_strlit("bytes");
    reveal_strlit("decimal");
    reveal_strlit("decimal(");
    reveal_strlit(",");
    reveal_strlit(")");
    assert("bytes"@ =~= seq!['b', 'y', 't', 'e', 's']);
    assert("decimal"@ =~= seq!['d', 'e', 'c', 'i', 'm', 'a', 'l']);
    assert("decimal("@ =~= seq!['d', 'e', 'c', 'i', 'm', 'a', 'l', '(']);
    assert(","@ =~= seq![',']);
    assert(")"@ =~= seq![')']);
}

/// The lines of the fields of a record, one for each field, in their order.
pub open spec fn field_lines(pad: Seq<char>, fields: Seq<Tree>) -> Seq<Seq<char>> {
    Seq::new(
        fields.len(),
        |k: int|
            match field_text(pad, fields[k], k == fields.len() - 1) {
                Ok(line) => line,
                Err(_) => Seq::empty(),
            },
    )
}

/// Where the first `n` fields have a text, each of them has a line, and the
/// text is those lines one after the other.
proof fn lemma_fields_are_lines(pad: Seq<char>, fields: Seq<Tree>, n: nat)
    requires
        n <= fields.len(),
        fields_text(pad, fields, n) is Ok,
    ensures
        forall|k: int|
            0 <= k < n ==> field_text(pad, #[trigger] fields[k], k == fields.len() - 1) is Ok,
        fields_text(pad, fields, n) == Ok::<Seq<char>, Fault>(
            field_lines(pad, fields).take(n as int).flatten(),
        ),
    decreases n,
{
    let lines = field_lines(pad, fields);
    if n == 0 {
        assert(lines.take(0).flatten() =~= Seq::<char>::empty());
    } else {
        lemma_fields_are_lines(pad, fields, (n - 1) as nat);
        assert(lines.take(n as int) =~= lines.take(n - 1).push(lines[n - 1]));
        lines.take(n - 1).lemma_flatten_push(lines[n - 1]);
    }
}

/// A record translates to `(` and a line break, then one line for each field,
/// in the order of `fields` and as many as there are fields, then its own
/// indentation and `)`. The lines stand four spaces deeper than the record.
pub proof fn law_record_lines(n: nat, object: Seq<Entry>, fields: Seq<Tree>)
    requires
        lookup(object, "fields"@) == Some(Tree::Array(fields)),
        record_text(spaces(n), object) is Ok,
    ensures
        field_lines(spaces(n + 4), fields).len() == fields.len(),
        forall|k: int|
            0 <= k < fields.len() ==> field_text(
                spaces(n + 4),
                fields[k],
                k == fields.len() - 1,
            ) == Ok::<Seq<char>, Fault>(#[trigger] field_lines(spaces(n + 4), fields)[k]),
        record_text(spaces(n), object) == Ok::<Seq<char>, Fault>(
            seq!['(', '\n'] + field_lines(spaces(n + 4), fields).flatten() + spaces(n) + seq![')'],
        ),
{
    reveal_strlit("    ");
    reveal_strlit("(\n");
    reveal_strlit(")");
    assert(spaces(n) + "    "@ =~= spaces(n + 4));
    assert("(\n"@ =~= seq!['(', '\n']);
    assert(")"@ =~= seq![')']);
    let lines = field_lines(spaces(n + 4), fields);
    lemma_fields_are_lines(spaces(n + 4), fields, fields.len());
    assert(lines.take(fields.len() as int) =~= lines);
    assert forall|k: int| 0 <= k < fields.len() implies field_text(
        spaces(n + 4),
        fields[k],
        k == fields.len() - 1,
    ) == Ok::<Seq<char>, Fault>(#[trigger] lines[k]) by {
        assert(field_text(spaces(n + 4), fields[k], k == fields.len() - 1) is Ok);
    }
}

/// A record has the fault of its first field that has one, whatever follows
/// that field.
pub proof fn law_first_fault(pad: Seq<char>, fields: Seq<Tree>, k: int)
    requires
        0 <= k < fields.len(),
        field_text(pad, fields[k], k == fields.len() - 1) is Err,
        forall|i: int|
            0 <= i < k ==> field_text(pad, #[trigger] fields[i], i == fields.len() - 1) is Ok,
    ensures
        fields_text(pad, fields, fields.len()) == Err::<Seq<char>, Fault>(
            field_text(pad, fields[k], k == fields.len() - 1)->Err_0,
        ),
{
    lemma_fields_without_fault(pad, fields, k as nat);
    lemma_fault_stays(pad, fields, (k + 1) as nat, fields.len());
}

/// Fields that each have a line have a text together.
proof fn lemma_fields_without_fault(pad: Seq<char>, fields: Seq<Tree>, n: nat)
    requires
        n <= fields.len(),
        forall|i: int|
            0 <= i < n ==> field_text(pad, #[trigger] fields[i], i == fields.len() - 1) is Ok,
    ensures
        fields_text(pad, fields, n) is Ok,
    decreases n,
{
    if n > 0 {
        lemma_fields_without_fault(pad, fields, (n - 1) as nat);
        assert(field_text(pad, fields[n - 1], n - 1 == fields.len() - 1) is Ok);
    }
}

/// The line of a field is the indentation, the field's name, ` as `, the text
/// of the field's type at that indentation, and a line break; before the line
/// break stands a comma unless the field is the last.
pub proof fn law_field_line(
    pad: Seq<char>,
    entries: Seq<Entry>,
    name: Seq<char>,
    node: Tree,
    last: bool,
)
    requires
        lookup(entries, "name"@) == Some(Tree::Text(name)),
        lookup(entries, "type"@) == Some(node),
    ensures
        field_text(pad, Tree::Object(entries), last) == (match node_text(pad, node) {
            Ok(text) => Ok(
                pad + name + seq![' ', 'a', 's', ' '] + text + (if last {
                    seq!['\n']
                } else {
                    seq![',', '\n']
                }),
            ),
            Err(e) => Err(e),
        }),
{
    reveal_strlit(" as ");
    reveal_strlit("\n");
    reveal_strlit(",\n");
    assert(" as "@ =~= seq![' ', 'a', 's', ' ']);
    assert("\n"@ =~= seq!['\n']);
    assert(",\n"@ =~= seq![',', '\n']);
}

/// A record that is the type of a field, or that stands anywhere else a type
/// can, is translated at the indentation of the line it starts on: its fields
/// stand four spaces deeper than that line, and its `)` at that line's depth.
pub proof fn law_nested_record(n: nat, object: Seq<Entry>, fields: Seq<Tree>)
    requires
        lookup(object, "type"@) matches Some(Tree::Text(kind)) && kind == seq![
            'r',
            'e',
            'c',
            'o',
            'r',
            'd',
        ],
        lookup(object, "fields"@) == Some(Tree::Array(fields)),
    ensures
        node_text(spaces(n), Tree::Object(object)) == (match fields_text(
            spaces(n + 4),
            fields,
            fields.len(),
        ) {
            Ok(lines) => Ok(seq!['(', '\n'] + lines + spaces(n) + seq![')']),
            Err(e) => Err(e),
        }),
{
    reveal_strlit("record");
    reveal_strlit("    ");
    reveal_strlit("(\n");
    reveal_strlit(")");
    assert("record"@ =~= seq!['r', 'e', 'c', 'o', 'r', 'd']);
    assert(spaces(n) + "    "@ =~= spaces(n + 4));
    assert("(\n"@ =~= seq!['(', '\n']);
    assert(")"@ =~= seq![')']);
    assert(node_text(spaces(n), Tree::Object(object)) == object_text(spaces(n), object));
    assert(object_text(spaces(n), object) == record_text(spaces(n), object));
}

/// No text of a type ends in a comma.
pub proof fn law_no_trailing_comma(pad: Seq<char>, j: Tree)
    requires
        node_text(pad, j) is Ok,
    ensures
        node_text(pad, j)->Ok_0.len() == 0 || node_text(pad, j)->Ok_0.last() != ',',
    decreases j,
{
    match j {
        Tree::Text(s) => {
            reveal_strlit("boolean");
            reveal_strlit("integer");
            reveal_strlit("long");
            reveal_strlit("float");
            reveal_strlit("double");
            reveal_strlit("string");
        },
        Tree::Array(a) => {
            assert(node_text(pad, j) == union_text(pad, a));
            law_no_trailing_comma(pad, a[first_candidate(a)]);
        },
        Tree::Object(o) => {
            reveal_strlit(")");
            reveal_strlit("[]");
            assert(node_text(pad, j) == object_text(pad, o));
            let t = node_text(pad, j)->Ok_0;
            if object_text(pad, o) == record_text(pad, o) {
                assert(t.last() == ')');
            } else if object_text(pad, o) == array_text(pad, o) {
                assert(t.last() == ']');
            } else {
                assert(object_text(pad, o) == bytes_text(o));
                assert(t.last() == ')');
            }
        },
        _ => {},
    }
}

/// The line of a field that is not the last of its record ends in a comma
/// and a line break; that of the last field ends in a line break with no
/// comma before it.
pub proof fn law_line_ends(pad: Seq<char>, field: Tree, last: bool)
    requires
        field_text(pad, field, last) is Ok,
    ensures
        ({
            let line = field_text(pad, field, last)->Ok_0;
            &&& line.len() >= 2
            &&& line.last() == '\n'
            &&& (line[line.len() - 2] == ',') == !last
        }),
{
    reveal_strlit(" as ");
    reveal_strlit("\n");
    reveal_strlit(",\n");
    match field {
        Tree::Object(entries) => {
            let node = lookup(entries, "type"@)->Some_0;
            law_no_trailing_comma(pad, node);
        },
        _ => {},
    }
}

} // verus!
