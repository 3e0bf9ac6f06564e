use ontogen::schema::model::{EntityDef, FieldDef, FieldRole, FieldType, RelationKind};
use ontogen::source::parse_schema_source;

fn relations_of(e: &EntityDef, kind: RelationKind) -> Vec<&FieldDef> {
    e.fields.iter().filter(|f| matches!(&f.role, FieldRole::Relation(info) if info.kind == kind)).collect()
}

#[test]
fn parse_node_schema() {
    let source = r#"
        use ontogen_macros::OntologyEntity;
        use serde::{Deserialize, Serialize};

        #[derive(Debug, Clone, Serialize, Deserialize, OntologyEntity)]
        #[ontology(entity, directory = "nodes", table = "nodes")]
        pub struct Node {
            #[ontology(id)]
            pub id: String,

            pub name: String,

            #[ontology(enum_field)]
            pub kind: Option<NodeKind>,

            #[serde(default)]
            #[ontology(relation(belongs_to, target = "Node"))]
            pub parent_id: Option<String>,

            #[serde(default)]
            #[ontology(relation(has_many, target = "Node", foreign_key = "parent_id"))]
            pub contains: Vec<String>,

            pub owner: Option<String>,

            #[serde(default)]
            pub tags: Vec<String>,

            #[serde(default)]
            #[ontology(body)]
            pub body: String,

            #[serde(default)]
            #[ontology(relation(many_to_many, target = "Requirement"))]
            pub fulfills: Vec<String>,
        }
    "#;

    let entities = parse_schema_source(source, "test_node.rs").unwrap();
    assert_eq!(entities.len(), 1);

    let node = &entities[0];
    assert_eq!(node.name, "Node");
    assert_eq!(node.directory, "nodes");
    assert_eq!(node.table, "nodes");
    assert_eq!(node.type_tag, "node");
    assert_eq!(node.prefix, "node");

    let id = node.id_field().unwrap();
    assert_eq!(id.name, "id");
    assert_eq!(id.field_type, FieldType::String);
    assert_eq!(id.role, FieldRole::Id);

    let name_field = &node.fields[1];
    assert_eq!(name_field.name, "name");
    assert_eq!(name_field.field_type, FieldType::String);
    assert_eq!(name_field.role, FieldRole::Plain);

    let kind = &node.fields[2];
    assert_eq!(kind.name, "kind");
    assert_eq!(kind.field_type, FieldType::OptionEnum("NodeKind".to_string()));
    assert_eq!(kind.role, FieldRole::EnumField);

    let parent = &node.fields[3];
    assert_eq!(parent.name, "parent_id");
    assert_eq!(parent.field_type, FieldType::OptionString);
    assert!(parent.serde_default);
    match &parent.role {
        FieldRole::Relation(info) => {
            assert_eq!(info.kind, RelationKind::BelongsTo);
            assert_eq!(info.target, "Node");
        }
        other => panic!("Expected Relation, got {other:?}"),
    }

    let contains = &node.fields[4];
    assert_eq!(contains.name, "contains");
    assert_eq!(contains.field_type, FieldType::VecString);
    match &contains.role {
        FieldRole::Relation(info) => {
            assert_eq!(info.kind, RelationKind::HasMany);
            assert_eq!(info.target, "Node");
            assert_eq!(info.foreign_key, Some("parent_id".to_string()));
        }
        other => panic!("Expected Relation, got {other:?}"),
    }

    let owner = &node.fields[5];
    assert_eq!(owner.name, "owner");
    assert_eq!(owner.field_type, FieldType::OptionString);
    assert_eq!(owner.role, FieldRole::Plain);

    let tags = &node.fields[6];
    assert_eq!(tags.name, "tags");
    assert_eq!(tags.field_type, FieldType::VecString);
    assert_eq!(tags.role, FieldRole::Plain);
    assert!(tags.serde_default);

    let body = node.body_field().unwrap();
    assert_eq!(body.name, "body");
    assert_eq!(body.role, FieldRole::Body);

    let fulfills = &node.fields[8];
    assert_eq!(fulfills.name, "fulfills");
    match &fulfills.role {
        FieldRole::Relation(info) => {
            assert_eq!(info.kind, RelationKind::ManyToMany);
            assert_eq!(info.target, "Requirement");
        }
        other => panic!("Expected Relation, got {other:?}"),
    }

    let junctions = relations_of(node, RelationKind::ManyToMany);
    assert_eq!(junctions.len(), 1);
    assert_eq!(junctions[0].name, "fulfills");

    let has_many = relations_of(node, RelationKind::HasMany);
    assert_eq!(has_many.len(), 1);
    assert_eq!(has_many[0].name, "contains");

    assert_eq!(relations_of(node, RelationKind::BelongsTo).len(), 1);
}

#[test]
fn parse_unknown_relation_kind_returns_error() {
    let source = r#"
        use ontogen_macros::OntologyEntity;

        #[derive(OntologyEntity)]
        #[ontology(entity)]
        pub struct Node {
            #[ontology(id)]
            pub id: String,

            #[ontology(relation(unknown_kind, target = "Node"))]
            pub parent_id: Option<String>,

            #[ontology(body)]
            pub body: String,
        }
    "#;

    let err = parse_schema_source(source, "test.rs").unwrap_err();
    assert!(err.contains("Unknown relation kind"), "expected error to mention 'Unknown relation kind', got: {err}");
    assert!(err.contains("unknown_kind"), "expected error to mention the bad kind, got: {err}");
}

#[test]
fn parse_inferred_defaults() {
    let source = r#"
        use ontogen_macros::OntologyEntity;

        #[derive(OntologyEntity)]
        #[ontology(entity)]
        pub struct Agent {
            #[ontology(id)]
            pub id: String,

            #[ontology(body)]
            pub body: String,
        }
    "#;

    let entities = parse_schema_source(source, "test.rs").unwrap();
    assert_eq!(entities.len(), 1);
    let agent = &entities[0];
    assert_eq!(agent.directory, "agent");
    assert_eq!(agent.table, "agent");
    assert_eq!(agent.type_tag, "agent");
    assert_eq!(agent.prefix, "agent");
}

#[test]
fn parse_inferred_with_overrides() {
    let source = r#"
        use ontogen_macros::OntologyEntity;

        #[derive(OntologyEntity)]
        #[ontology(entity, table = "work_sessions", prefix = "session")]
        pub struct WorkSession {
            #[ontology(id)]
            pub id: String,

            #[ontology(body)]
            pub body: String,
        }
    "#;

    let entities = parse_schema_source(source, "test.rs").unwrap();
    let ws = &entities[0];
    assert_eq!(ws.directory, "work_session");
    assert_eq!(ws.table, "work_sessions");
    assert_eq!(ws.type_tag, "work_session");
    assert_eq!(ws.prefix, "session");
}

#[test]
fn parse_type_name_override() {
    let source = r#"
        use ontogen_macros::OntologyEntity;

        #[derive(OntologyEntity)]
        #[ontology(entity, directory = "sessions", table = "work_sessions", type_name = "work_session")]
        pub struct WorkSession {
            #[ontology(id)]
            pub id: String,

            #[ontology(body)]
            pub body: String,
        }
    "#;

    let entities = parse_schema_source(source, "test.rs").unwrap();
    assert_eq!(entities[0].type_tag, "work_session");
}

#[test]
fn parse_skip_field() {
    let source = r#"
        use ontogen_macros::OntologyEntity;

        #[derive(OntologyEntity)]
        #[ontology(entity, directory = "specs", table = "specifications")]
        pub struct Specification {
            #[ontology(id)]
            pub id: String,

            #[ontology(skip)]
            pub acceptance_criteria: Vec<AcceptanceCriterion>,

            #[ontology(body)]
            pub body: String,
        }
    "#;

    let entities = parse_schema_source(source, "test.rs").unwrap();
    let spec = &entities[0];
    let ac = &spec.fields[1];
    assert_eq!(ac.name, "acceptance_criteria");
    assert_eq!(ac.role, FieldRole::Skip);
}

#[test]
fn struct_without_ontology_entity_is_skipped() {
    let source = r#"
        #[derive(Debug, Clone)]
        pub struct NotAnEntity {
            pub id: String,
        }
    "#;

    let entities = parse_schema_source(source, "test.rs").unwrap();
    assert!(entities.is_empty());
}

#[test]
fn parse_junction_override() {
    let source = r#"
        use ontogen_macros::OntologyEntity;

        #[derive(OntologyEntity)]
        #[ontology(entity, directory = "nodes", table = "nodes")]
        pub struct Node {
            #[ontology(id)]
            pub id: String,

            #[ontology(relation(many_to_many, target = "Requirement", junction = "node_fulfills_req"))]
            pub fulfills: Vec<String>,

            #[ontology(body)]
            pub body: String,
        }
    "#;

    let entities = parse_schema_source(source, "test.rs").unwrap();
    let fulfills = &entities[0].fields[1];
    match &fulfills.role {
        FieldRole::Relation(info) => {
            assert_eq!(info.kind, RelationKind::ManyToMany);
            assert_eq!(info.junction, Some("node_fulfills_req".to_string()));
        }
        other => panic!("Expected Relation, got {other:?}"),
    }
}

#[test]
fn parse_has_many_with_foreign_key() {
    let source = r#"
        use ontogen_macros::OntologyEntity;

        #[derive(OntologyEntity)]
        #[ontology(entity)]
        pub struct Node {
            #[ontology(id)]
            pub id: String,

            #[ontology(relation(has_many, target = "Node", foreign_key = "parent_id"))]
            pub contains: Vec<String>,

            #[ontology(body)]
            pub body: String,
        }
    "#;

    let entities = parse_schema_source(source, "test.rs").unwrap();
    let contains = &entities[0].fields[1];
    match &contains.role {
        FieldRole::Relation(info) => {
            assert_eq!(info.kind, RelationKind::HasMany);
            assert_eq!(info.target, "Node");
            assert_eq!(info.foreign_key, Some("parent_id".to_string()));
        }
        other => panic!("Expected Relation, got {other:?}"),
    }
}

#[test]
fn malformed_ontology_attr_on_field_is_skipped_cleanly() {
    let source = r#"
        use ontogen_macros::OntologyEntity;

        #[derive(OntologyEntity)]
        #[ontology(entity)]
        pub struct Node {
            #[ontology(id)]
            pub id: String,

            #[ontology(this is garbage syntax)]
            pub name: String,

            #[ontology(body)]
            pub body: String,
        }
    "#;

    let entities = parse_schema_source(source, "test.rs").unwrap();
    assert_eq!(entities.len(), 1);
    let node = &entities[0];
    let name_field = node.fields.iter().find(|f| f.name == "name").expect("name field should exist");
    assert_eq!(name_field.role, FieldRole::Plain);
    assert!(node.id_field().is_some());
    assert!(node.body_field().is_some());
}

#[test]
fn malformed_relation_meta_is_skipped_cleanly() {
    let source = r#"
        use ontogen_macros::OntologyEntity;

        #[derive(OntologyEntity)]
        #[ontology(entity)]
        pub struct Node {
            #[ontology(id)]
            pub id: String,

            #[ontology(relation(!! not valid !!))]
            pub parent_id: Option<String>,

            #[ontology(body)]
            pub body: String,
        }
    "#;

    let entities = parse_schema_source(source, "test.rs").unwrap();
    let node = &entities[0];
    let parent = node.fields.iter().find(|f| f.name == "parent_id").expect("parent_id should exist");
    assert_eq!(parent.role, FieldRole::Plain);
}

#[test]
fn malformed_ontology_attr_on_struct_is_skipped_cleanly() {
    let source = r#"
        use ontogen_macros::OntologyEntity;

        #[derive(OntologyEntity)]
        #[ontology(!! not valid !!)]
        pub struct Broken {
            pub id: String,
        }
    "#;

    let entities = parse_schema_source(source, "test.rs").unwrap();
    assert!(entities.is_empty());
}

#[test]
fn rejects_sql_injection_in_table() {
    let source = r#"
        use ontogen_macros::OntologyEntity;

        #[derive(OntologyEntity)]
        #[ontology(entity, table = "users'; DROP TABLE users; --")]
        pub struct Node {
            #[ontology(id)]
            pub id: String,

            #[ontology(body)]
            pub body: String,
        }
    "#;

    let err = parse_schema_source(source, "test.rs").expect_err("expected validation error");
    assert!(err.contains("invalid"), "error should mention `invalid`: {err}");
    assert!(err.contains("table"), "error should mention field name `table`: {err}");
    assert!(err.contains("Node"), "error should mention entity name `Node`: {err}");
}

#[test]
fn rejects_invalid_directory() {
    let source = r#"
        use ontogen_macros::OntologyEntity;

        #[derive(OntologyEntity)]
        #[ontology(entity, directory = "1bad-dir")]
        pub struct Thing {
            #[ontology(id)]
            pub id: String,
        }
    "#;

    let err = parse_schema_source(source, "test.rs").expect_err("expected validation error");
    assert!(err.contains("invalid"));
    assert!(err.contains("directory"));
}

#[test]
fn rejects_empty_prefix() {
    let source = r#"
        use ontogen_macros::OntologyEntity;

        #[derive(OntologyEntity)]
        #[ontology(entity, prefix = "")]
        pub struct Thing {
            #[ontology(id)]
            pub id: String,
        }
    "#;

    let err = parse_schema_source(source, "test.rs").expect_err("expected validation error");
    assert!(err.contains("prefix"));
    assert!(err.contains("empty"));
}

#[test]
fn unparsable_source_fails_with_the_file_path() {
    let err = parse_schema_source("pub struct {", "schema/broken.rs").unwrap_err();
    assert!(err.starts_with("Failed to parse schema/broken.rs: "), "{err}");
}
