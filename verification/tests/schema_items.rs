use ontogen::attrs::{AttrInfo, AttrMeta, MetaItem};
use ontogen::schema::model::FieldType;
use ontogen::schema::parse::{parse_schema_items, FieldInput, StructInput};
use ontogen::servers::parse::{PathArgs, PathSegment, TypeAst, TypePath};

fn path(ident: &str) -> TypeAst {
    TypeAst::Path(TypePath {
        qualified: false,
        segments: vec![PathSegment { ident: ident.to_string(), args: PathArgs::Bare }],
    })
}

fn derive_entity() -> AttrInfo {
    AttrInfo {
        path: vec!["derive".to_string()],
        meta: AttrMeta::List(Some(vec![
            MetaItem::Path(vec!["Debug".to_string()]),
            MetaItem::Path(vec!["OntologyEntity".to_string()]),
        ])),
    }
}

fn ontology(items: Vec<MetaItem>) -> AttrInfo {
    AttrInfo { path: vec!["ontology".to_string()], meta: AttrMeta::List(Some(items)) }
}

fn field(name: &str, ty: &str, attrs: Vec<AttrInfo>) -> FieldInput {
    FieldInput { name: name.to_string(), ty: path(ty), tokens: ty.to_string(), attrs }
}

fn node_struct(table: &str) -> StructInput {
    StructInput {
        name: "WorkSession".to_string(),
        attrs: vec![
            derive_entity(),
            ontology(vec![
                MetaItem::Path(vec!["entity".to_string()]),
                MetaItem::NameValue(vec!["table".to_string()], Some(table.to_string())),
            ]),
        ],
        fields: Some(vec![
            field("id", "String", vec![ontology(vec![MetaItem::Path(vec!["id".to_string()])])]),
            field("minutes", "i32", vec![]),
        ]),
    }
}

#[test]
fn derived_entities_are_parsed_with_inferred_defaults() {
    let plain = StructInput { name: "Helper".to_string(), attrs: vec![], fields: Some(vec![]) };
    let entities = parse_schema_items(&vec![plain, node_struct("sessions")], "schema/work.rs").unwrap();
    assert_eq!(entities.len(), 1);
    let e = &entities[0];
    assert_eq!(e.name, "WorkSession");
    assert_eq!(e.table, "sessions");
    assert_eq!(e.directory, "work_session");
    assert_eq!(e.type_tag, "work_session");
    assert_eq!(e.prefix, "work_session");
    assert_eq!(e.fields.len(), 2);
    assert_eq!(e.fields[1].field_type, FieldType::I32);
}

#[test]
fn an_invalid_table_name_fails_the_file() {
    let err = parse_schema_items(&vec![node_struct("users; DROP")], "schema/work.rs").unwrap_err();
    assert!(err.contains("table"), "{err}");
    assert!(err.starts_with("entity `WorkSession`: "), "{err}");
}
