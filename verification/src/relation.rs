//! Startup validation of the bidirectional link between two external
//! collections.
//!
//! The validator is a pure predicate over schema data an external
//! collaborator has already retrieved: it looks a named field up in each
//! schema, demands that the field is a cross-reference, and demands that
//! the reference points at the expected counterpart collection. Any
//! failure is configuration breakage and aborts startup; there is nothing
//! to retry.

use vstd::prelude::*;

use crate::page_ref::NotionPageId;
use crate::text::str_eq;

verus! {

/// The kind of a schema field, as far as the validator reads it.
#[derive(Debug)]
pub enum FieldKind {
    /// A cross-reference to another collection, naming its identifier.
    Relation { target: NotionPageId },
    /// Any other property kind.
    Other,
}

/// One named field of a collection schema.
#[derive(Debug)]
pub struct SchemaField {
    /// The field's name, unique within its schema.
    pub name: String,
    /// What kind of field it is.
    pub kind: FieldKind,
}

/// A collection schema: its fields, in order.
#[derive(Debug)]
pub struct Schema {
    /// The schema's fields.
    pub fields: Vec<SchemaField>,
}

/// Why a schema failed validation.
#[derive(Debug)]
pub enum RelationError {
    /// The schema has no field of the given name.
    MissingField { name: String },
    /// The named field is not a cross-reference.
    WrongFieldType { name: String },
    /// The named field references a collection other than the expected
    /// one; carries both identifiers.
    WrongTarget { name: String, expected: NotionPageId, actual: NotionPageId },
}

/// The kind of the first field named `name`, if any.
pub open spec fn field_lookup(fields: Seq<SchemaField>, name: Seq<char>) -> Option<FieldKind>
    decreases fields.len(),
{
    if fields.len() == 0 {
        None
    } else if fields[0].name@ == name {
        Some(fields[0].kind)
    } else {
        field_lookup(fields.drop_first(), name)
    }
}

/// The named field exists, is a cross-reference, and points at `expected`.
pub open spec fn relation_ok(fields: Seq<SchemaField>, name: Seq<char>, expected: Seq<char>) -> bool {
    match field_lookup(fields, name) {
        Some(FieldKind::Relation { target }) => target@ == expected,
        _ => false,
    }
}

/// `e` is the error the validator reports for the named field of a
/// schema when the expected reference is `expected`.
pub open spec fn err_describes(
    e: RelationError,
    fields: Seq<SchemaField>,
    name: Seq<char>,
    expected: Seq<char>,
) -> bool {
    match e {
        RelationError::MissingField { name: n } => n@ == name && field_lookup(fields, name)
            is None,
        RelationError::WrongFieldType { name: n } => n@ == name && (field_lookup(fields, name)
            matches Some(FieldKind::Other)),
        RelationError::WrongTarget { name: n, expected: exp, actual } => {
            &&& n@ == name
            &&& exp@ == expected
            &&& (field_lookup(fields, name) matches Some(FieldKind::Relation { target })
                && target@ == actual@)
            &&& actual@ != expected
        },
    }
}

/// Skipping fields whose names all differ from `name` does not change the
/// lookup.
proof fn lemma_lookup_skip(fields: Seq<SchemaField>, name: Seq<char>, i: int)
    requires
        0 <= i <= fields.len(),
        forall|j: int| 0 <= j < i ==> (#[trigger] fields[j].name)@ != name,
    ensures
        field_lookup(fields, name) == field_lookup(fields.skip(i), name),
    decreases i,
{
    if i > 0 {
        assert(fields[0].name@ != name);
        let rest = fields.drop_first();
        assert(field_lookup(fields, name) == field_lookup(rest, name));
        assert forall|j: int| 0 <= j < i - 1 implies (#[trigger] rest[j].name)@ != name by {
            assert(rest[j] == fields[j + 1]);
        }
        lemma_lookup_skip(rest, name, i - 1);
        assert(rest.skip(i - 1) =~= fields.skip(i));
    } else {
        assert(fields.skip(0) =~= fields);
    }
}

/// Check one direction of the link: the named field of `schema` must be
/// a cross-reference to `expected_target`. The first failure is
/// reported: a missing field, a field of another kind, or a reference to
/// the wrong collection (naming both identifiers).
pub fn validate_database_relation(
    schema: &Schema,
    property_name: &str,
    expected_target: &NotionPageId,
) -> (r: Result<(), RelationError>)
    ensures
        match r {
            Ok(()) => relation_ok(schema.fields@, property_name@, expected_target@),
            Err(e) => !relation_ok(schema.fields@, property_name@, expected_target@)
                && err_describes(e, schema.fields@, property_name@, expected_target@),
        },
{
    let n = schema.fields.len();
    let mut i: usize = 0;
    while i < n
        invariant
            i <= n,
            n == schema.fields@.len(),
            forall|j: int| 0 <= j < i ==> (#[trigger] schema.fields@[j].name)@ != property_name@,
        decreases n - i,
    {
        let f = &schema.fields[i];
        if str_eq(f.name.as_str(), property_name) {
            proof {
                lemma_lookup_skip(schema.fields@, property_name@, i as int);
                assert(schema.fields@.skip(i as int)[0] == schema.fields@[i as int]);
                assert(schema.fields@.skip(i as int).len() > 0);
                assert(field_lookup(schema.fields@, property_name@) == Some(
                    schema.fields@[i as int].kind,
                ));
            }
            match &f.kind {
                FieldKind::Relation { target } => {
                    if str_eq(target.as_str(), expected_target.as_str()) {
                        return Ok(());
                    }
                    return Err(RelationError::WrongTarget {
                        name: f.name.clone(),
                        expected: expected_target.clone(),
                        actual: target.clone(),
                    });
                },
                FieldKind::Other => {
                    return Err(RelationError::WrongFieldType { name: f.name.clone() });
                },
            }
        }
        i += 1;
    }
    proof {
        lemma_lookup_skip(schema.fields@, property_name@, n as int);
        assert(schema.fields@.skip(n as int).len() == 0);
    }
    Err(RelationError::MissingField { name: property_name.to_owned() })
}

/// Check the bidirectional link between two collections: the named field
/// of each schema must be a cross-reference to the other collection.
/// Fail-fast: the first direction's failure is reported before the
/// second direction is looked at.
pub fn validate_bidirectional(
    schema_a: &Schema,
    schema_b: &Schema,
    field_name_a: &str,
    field_name_b: &str,
    expected_b: &NotionPageId,
    expected_a: &NotionPageId,
) -> (r: Result<(), RelationError>)
    ensures
        match r {
            Ok(()) => relation_ok(schema_a.fields@, field_name_a@, expected_b@) && relation_ok(
                schema_b.fields@,
                field_name_b@,
                expected_a@,
            ),
            Err(e) => {
                ||| (!relation_ok(schema_a.fields@, field_name_a@, expected_b@) && err_describes(
                    e,
                    schema_a.fields@,
                    field_name_a@,
                    expected_b@,
                ))
                ||| (relation_ok(schema_a.fields@, field_name_a@, expected_b@) && !relation_ok(
                    schema_b.fields@,
                    field_name_b@,
                    expected_a@,
                ) && err_describes(e, schema_b.fields@, field_name_b@, expected_a@))
            },
        },
{
    match validate_database_relation(schema_a, field_name_a, expected_b) {
        Ok(()) => {},
        Err(e) => {
            return Err(e);
        },
    }
    match validate_database_relation(schema_b, field_name_b, expected_a) {
        Ok(()) => Ok(()),
        Err(e) => Err(e),
    }
}

} // verus!
