use sha2::{Digest, Sha256};

use ontogen::docs::json_schema::{entity_schema, export_schema};
use ontogen::docs::markdown::{escape_pipes, render};
use ontogen::docs::{generate, is_required, rust_type, schema_revision, DocsConfig};
use ontogen::schema::model::{EntityDef, EnumDef, EnumVariant, FieldDef, FieldRole, FieldType, RelationInfo, RelationKind};

fn field(name: &str, field_type: FieldType) -> FieldDef {
    FieldDef::new(name, field_type, FieldRole::Plain)
}

fn documented(doc: &str, mut f: FieldDef) -> FieldDef {
    f.doc = doc.to_string();
    f
}

fn config() -> DocsConfig {
    DocsConfig {
        markdown_output: "docs/data-model.md".to_string(),
        json_schema_dir: "docs/schema".to_string(),
        title: "Blog data model".to_string(),
        export_format: "blog-log".to_string(),
    }
}

fn documented_set_entity() -> EntityDef {
    EntityDef {
        name: "Set".to_string(),
        doc: "One working set of an exercise.".to_string(),
        directory: "sets".to_string(),
        table: "sets".to_string(),
        type_tag: "set".to_string(),
        prefix: "set".to_string(),
        fields: vec![
            documented("Stable id.", FieldDef::new("id", FieldType::String, FieldRole::Id)),
            documented("Integer metres.", FieldDef::new("distance_m", FieldType::OptionI32, FieldRole::Plain)),
            documented(
                "How the set was\nrecorded.",
                FieldDef::new("kind", FieldType::OptionEnum("SetKind".to_string()), FieldRole::EnumField),
            ),
            FieldDef::new("tags", FieldType::VecString, FieldRole::Plain),
            FieldDef::new("weight_kg", FieldType::F64, FieldRole::Plain),
        ],
    }
}

fn set_kind_enum() -> EnumDef {
    EnumDef {
        name: "SetKind".to_string(),
        variants: vec![
            EnumVariant { name: "Working".to_string(), value: "working".to_string() },
            EnumVariant { name: "WarmUp".to_string(), value: "warm-up".to_string() },
        ],
    }
}

fn belongs_to(name: &str, target: &str) -> FieldDef {
    FieldDef::new(
        name,
        FieldType::String,
        FieldRole::Relation(RelationInfo {
            kind: RelationKind::BelongsTo,
            target: target.to_string(),
            junction: None,
            foreign_key: None,
        }),
    )
}

fn entity(name: &str, table: &str, fields: Vec<FieldDef>) -> EntityDef {
    EntityDef {
        name: name.to_string(),
        doc: String::new(),
        directory: table.to_string(),
        table: table.to_string(),
        type_tag: name.to_ascii_lowercase(),
        prefix: name.to_ascii_lowercase(),
        fields,
    }
}

#[test]
fn docs_markdown_prints_enum_values_and_flattens_docs() {
    let files = generate(&vec![documented_set_entity()], &vec![set_kind_enum()], &config());

    assert!(files.markdown.contains("| distance_m | integer | no | Integer metres. |"), "{}", files.markdown);
    assert!(files.markdown.contains("enum(working, warm-up)"), "{}", files.markdown);
    // A multi-line field doc collapses onto the table row.
    assert!(files.markdown.contains("How the set was recorded."), "{}", files.markdown);
}

#[test]
fn optional_fields_are_not_required() {
    assert!(is_required(&field("id", FieldType::String)));
    assert!(!is_required(&field("note", FieldType::OptionString)));
    assert!(is_required(&field("reps", FieldType::I32)));
    assert!(!is_required(&field("weight", FieldType::OptionF64)));
}

#[test]
fn revision_tracks_types_not_docs() {
    let make = |doc: &str, ft: FieldType| {
        entity("Set", "sets", vec![documented(doc, field("reps", ft))])
    };
    let plain = schema_revision(&vec![make("", FieldType::I32)]);
    assert_eq!(plain.len(), 16);
    assert!(plain.chars().all(|c| c.is_ascii_hexdigit() && !c.is_ascii_uppercase()));
    assert_eq!(plain, schema_revision(&vec![make("How many.", FieldType::I32)]));
    assert_ne!(plain, schema_revision(&vec![make("", FieldType::OptionI32)]));
}

#[test]
fn revision_is_the_sha256_prefix_of_the_sorted_lines() {
    // sha256("set.reps:i32") begins with these 16 hex digits.
    let one = entity("Set", "sets", vec![field("reps", FieldType::I32)]);
    let rev = schema_revision(&vec![one]);
    let expected = {
        let digest = Sha256::digest("set.reps:i32".as_bytes());
        format!("{digest:x}")[..16].to_string()
    };
    assert_eq!(rev, expected);
    // Field order does not matter: the lines are sorted first.
    let ab = entity("Pair", "pairs", vec![field("b", FieldType::Bool), field("a", FieldType::String)]);
    let ba = entity("Pair", "pairs", vec![field("a", FieldType::String), field("b", FieldType::Bool)]);
    assert_eq!(schema_revision(&vec![ab]), schema_revision(&vec![ba]));
}

#[test]
fn rust_types_are_spelled_as_in_the_schema() {
    assert_eq!(rust_type(&field("a", FieldType::OptionEnum("Kind".into()))), "Option<Kind>");
    assert_eq!(rust_type(&field("a", FieldType::VecStruct("Step".into()))), "Vec<Step>");
    assert_eq!(rust_type(&field("a", FieldType::OptionF32)), "Option<f32>");
    assert_eq!(rust_type(&field("a", FieldType::Other("chrono::NaiveDate".into()))), "chrono::NaiveDate");
}

#[test]
fn pipes_are_escaped_in_cells() {
    assert_eq!(escape_pipes("a | b | c"), "a \\| b \\| c");
    assert_eq!(escape_pipes("plain"), "plain");
}

#[test]
fn markdown_reference_has_sections_relations_and_diagram() {
    let post = entity("Post", "posts", vec![FieldDef::new("id", FieldType::String, FieldRole::Id)]);
    let comment = entity(
        "Comment",
        "comments",
        vec![FieldDef::new("id", FieldType::String, FieldRole::Id), belongs_to("post_id", "Post")],
    );
    let md = render(&vec![post, comment], &vec![], &config(), "0123456789abcdef");
    let expected = "# Blog data model\n\n\
Generated from the schema. Do not edit. Schema revision `0123456789abcdef`.\n\n\
## Comment\n\n\
Table: `comments`\n\n\
| field | type | required | doc |\n|---|---|---|---|\n| id | string | yes |  |\n| post_id | string | yes |  |\n\n\
Relations:\n- belongs to Post via `post_id`\n\n\
## Post\n\n\
Table: `posts`\n\n\
| field | type | required | doc |\n|---|---|---|---|\n| id | string | yes |  |\n\n\
Relations:\n- referenced by Comment.`post_id`\n\n\
## Entity relationship diagram\n\n\
```mermaid\nerDiagram\n  Post ||--o{ Comment : \"post_id\"\n```\n";
    assert_eq!(md, expected);
}

#[test]
fn er_diagram_edges_are_sorted_by_target_entity_field() {
    let a = entity("Alpha", "alphas", vec![belongs_to("z_ref", "Beta"), belongs_to("a_ref", "Beta")]);
    let b = entity("Beta", "betas", vec![belongs_to("owner", "Alpha")]);
    let md = render(&vec![b, a], &vec![], &config(), "r");
    let diagram = md.split("```mermaid\n").nth(1).unwrap();
    assert!(diagram.starts_with(
        "erDiagram\n  Alpha ||--o{ Beta : \"owner\"\n  Beta ||--o{ Alpha : \"a_ref\"\n  Beta ||--o{ Alpha : \"z_ref\"\n```"
    ));
}

#[test]
fn entity_json_schema_lists_required_and_property_types() {
    let doc = entity_schema(&documented_set_entity(), &vec![set_kind_enum()], "abc");
    assert_eq!(doc.schema, "https://json-schema.org/draft/2020-12/schema");
    assert_eq!(doc.id, "set.schema.json");
    assert_eq!(doc.description, "One working set of an exercise.");
    assert_eq!(doc.revision, "abc");
    assert_eq!(doc.required, vec!["id", "tags", "weight_kg"]);
    let names: Vec<&str> = doc.properties.iter().map(|(n, _)| n.as_str()).collect();
    assert_eq!(names, vec!["id", "distance_m", "kind", "tags", "weight_kg"]);
    let distance = &doc.properties[1].1;
    assert_eq!(distance.ty.as_deref(), Some("integer"));
    assert_eq!(distance.description.as_deref(), Some("Integer metres."));
    let kind = &doc.properties[2].1;
    assert_eq!(kind.ty.as_deref(), Some("string"));
    assert_eq!(kind.enum_values, Some(vec!["working".to_string(), "warm-up".to_string()]));
    let tags = &doc.properties[3].1;
    assert_eq!(tags.ty.as_deref(), Some("array"));
    assert_eq!(tags.items.as_ref().unwrap().ty.as_deref(), Some("string"));
    assert!(tags.description.is_none());
    assert_eq!(doc.properties[4].1.ty.as_deref(), Some("number"));
    assert!(!doc.additional_properties);
}

#[test]
fn export_schema_refs_each_table_in_name_order() {
    let doc = export_schema(
        &vec![entity("Zeta", "zetas", vec![]), entity("Alpha", "alphas", vec![])],
        "Blog data model",
        "blog-log",
        "rev",
    );
    assert_eq!(doc.title, "Blog data model export bundle");
    assert_eq!(doc.required, vec!["manifest", "tables"]);
    let manifest = &doc.properties[0].1;
    let format = &manifest.properties.as_ref().unwrap()[0];
    assert_eq!(format.0, "format");
    assert_eq!(format.1.const_value.as_deref(), Some("blog-log"));
    let tables = doc.properties[1].1.properties.as_ref().unwrap();
    assert_eq!(tables[0].0, "alphas");
    assert_eq!(tables[0].1.items.as_ref().unwrap().reference.as_deref(), Some("alpha.schema.json"));
    assert_eq!(tables[1].0, "zetas");
}
