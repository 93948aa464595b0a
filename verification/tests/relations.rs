use twag::relation::{validate_bidirectional, validate_database_relation};
use twag::{FieldKind, NotionPageId, RelationError, Schema, SchemaField};

fn page(s: &str) -> NotionPageId {
    NotionPageId::new(s).unwrap()
}

fn relation_field(name: &str, target: &NotionPageId) -> SchemaField {
    SchemaField {
        name: name.to_owned(),
        kind: FieldKind::Relation { target: target.clone() },
    }
}

fn text_field(name: &str) -> SchemaField {
    SchemaField { name: name.to_owned(), kind: FieldKind::Other }
}

#[test]
fn test_missing_field_is_reported() {
    let things_db = page("a1b2c3d4e5f67890abcdef1234567890");
    let schema = Schema { fields: vec![text_field("Title")] };
    let r = validate_database_relation(&schema, "Container", &things_db);
    match r {
        Err(RelationError::MissingField { name }) => assert_eq!(name, "Container"),
        other => panic!("expected MissingField, got {:?}", other),
    }
}

#[test]
fn test_wrong_field_type_is_reported() {
    let things_db = page("a1b2c3d4e5f67890abcdef1234567890");
    let schema = Schema { fields: vec![text_field("Container")] };
    let r = validate_database_relation(&schema, "Container", &things_db);
    match r {
        Err(RelationError::WrongFieldType { name }) => assert_eq!(name, "Container"),
        other => panic!("expected WrongFieldType, got {:?}", other),
    }
}

#[test]
fn test_wrong_target_names_both_ids() {
    let expected = page("a1b2c3d4e5f67890abcdef1234567890");
    let other = page("00000000000000000000000000000001");
    let schema = Schema { fields: vec![relation_field("Container", &other)] };
    let r = validate_database_relation(&schema, "Container", &expected);
    match r {
        Err(RelationError::WrongTarget { name, expected: e, actual: a }) => {
            assert_eq!(name, "Container");
            assert_eq!(e, expected);
            assert_eq!(a, other);
        },
        other => panic!("expected WrongTarget, got {:?}", other),
    }
}

#[test]
fn test_valid_relation_passes() {
    let things_db = page("a1b2c3d4e5f67890abcdef1234567890");
    let schema = Schema {
        fields: vec![text_field("Title"), relation_field("Container", &things_db)],
    };
    assert!(validate_database_relation(&schema, "Container", &things_db).is_ok());
}

#[test]
fn test_bidirectional_link_passes() {
    let things_db = page("a1b2c3d4e5f67890abcdef1234567890");
    let containers_db = page("00000000000000000000000000000001");
    let things = Schema { fields: vec![relation_field("Container", &containers_db)] };
    let containers = Schema { fields: vec![relation_field("Things", &things_db)] };
    assert!(
        validate_bidirectional(&things, &containers, "Container", "Things", &containers_db, &things_db)
            .is_ok()
    );
}

#[test]
fn test_bidirectional_reports_second_direction() {
    let things_db = page("a1b2c3d4e5f67890abcdef1234567890");
    let containers_db = page("00000000000000000000000000000001");
    let things = Schema { fields: vec![relation_field("Container", &containers_db)] };
    let containers = Schema { fields: vec![text_field("Things")] };
    let r = validate_bidirectional(
        &things,
        &containers,
        "Container",
        "Things",
        &containers_db,
        &things_db,
    );
    match r {
        Err(RelationError::WrongFieldType { name }) => assert_eq!(name, "Things"),
        other => panic!("expected WrongFieldType, got {:?}", other),
    }
}
