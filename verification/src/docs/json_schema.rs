//! JSON Schema (draft 2020-12) documents for the parsed schema: one per
//! entity, plus one describing an export bundle of every table. The
//! documents are built here as values; their keys keep the order given.

use vstd::prelude::*;

use crate::docs::{
    enum_def, enum_def_spec, rust_type_spec, is_required, pick, required_spec, sorted_entities_spec, sorted_entity_order,
};
use crate::naming::{snake_spec, to_snake_case};
use crate::schema::model::{EntityDef, EnumDef, EnumVariant, FieldDef, FieldType};

verus! {

/// The JSON Schema dialect the documents declare.
pub const DRAFT: &'static str = "https://json-schema.org/draft/2020-12/schema";

/// A nested schema node. Every key is optional, so one type covers a field
/// property, an array's items, and the manifest's sub-objects.
#[derive(Debug)]
pub struct Schema {
    /// `type`.
    pub ty: Option<String>,
    /// `items`.
    pub items: Option<Box<Schema>>,
    /// `description`.
    pub description: Option<String>,
    /// `enum`.
    pub enum_values: Option<Vec<String>>,
    /// `const`.
    pub const_value: Option<String>,
    /// `$ref`.
    pub reference: Option<String>,
    /// `properties`, in order.
    pub properties: Option<Vec<(String, Schema)>>,
    /// `additionalProperties`.
    pub additional_properties: Option<Box<Schema>>,
    /// `required`.
    pub required: Option<Vec<String>>,
}

/// No key but those the caller sets: items, enum, const, `$ref`,
/// properties, additional properties and required are all absent.
pub open spec fn bare(s: Schema) -> bool {
    &&& s.items is None
    &&& s.enum_values is None
    &&& s.const_value is None
    &&& s.reference is None
    &&& s.properties is None
    &&& s.additional_properties is None
    &&& s.required is None
}

/// A node with only a `type`.
pub open spec fn typed_only(s: Schema, ty: Seq<char>) -> bool {
    s.ty matches Some(t) && t@ == ty && s.description is None && bare(s)
}

impl Schema {
    /// The node with no key.
    pub fn empty() -> (s: Schema)
        ensures
            s.ty is None,
            s.description is None,
            bare(s),
    {
        Schema {
            ty: None,
            items: None,
            description: None,
            enum_values: None,
            const_value: None,
            reference: None,
            properties: None,
            additional_properties: None,
            required: None,
        }
    }

    /// A node with only a `type`.
    pub fn typed(ty: &str) -> (s: Schema)
        ensures
            typed_only(s, ty@),
    {
        let mut s = Schema::empty();
        s.ty = Some(String::from_str(ty));
        s
    }
}

// ─── Properties ─────────────────────────────────────────────────────────────

/// The JSON type of a scalar field type.
pub open spec fn scalar_json_type(ft: FieldType) -> Seq<char> {
    match ft {
        FieldType::I32 => "integer"@,
        FieldType::OptionI32 => "integer"@,
        FieldType::I64 => "integer"@,
        FieldType::OptionI64 => "integer"@,
        FieldType::F32 => "number"@,
        FieldType::OptionF32 => "number"@,
        FieldType::F64 => "number"@,
        FieldType::OptionF64 => "number"@,
        FieldType::Bool => "boolean"@,
        FieldType::OptionBool => "boolean"@,
        _ => "string"@,
    }
}

/// The JSON type a field is documented with follows its Rust type: `bool`
/// is `boolean`, the integer types `integer`, the float types `number`,
/// everything else `string`, and an `Option<T>` field is documented as
/// `T` (a missing value is an absent property, not a different type).
pub proof fn law_json_type_follows_rust_type(ft: FieldType)
    requires
        crate::schema::model::is_builtin_type(ft),
    ensures
        scalar_json_type(ft) == "boolean"@ <==> (rust_type_spec(ft) == "bool"@ || rust_type_spec(ft) == "Option<bool>"@),
        scalar_json_type(ft) == "integer"@ <==> (rust_type_spec(ft) == "i32"@ || rust_type_spec(ft) == "i64"@
            || rust_type_spec(ft) == "Option<i32>"@ || rust_type_spec(ft) == "Option<i64>"@),
        scalar_json_type(ft) == "number"@ <==> (rust_type_spec(ft) == "f32"@ || rust_type_spec(ft) == "f64"@
            || rust_type_spec(ft) == "Option<f32>"@ || rust_type_spec(ft) == "Option<f64>"@),
        scalar_json_type(ft) == "string"@ <==> (rust_type_spec(ft) == "String"@ || rust_type_spec(ft) == "Option<String>"@
            || rust_type_spec(ft) == "Vec<String>"@),
{
    reveal_strlit("String");
    reveal_strlit("Option<String>");
    reveal_strlit("Vec<String>");
    reveal_strlit("i32");
    reveal_strlit("Option<i32>");
    reveal_strlit("i64");
    reveal_strlit("Option<i64>");
    reveal_strlit("f32");
    reveal_strlit("Option<f32>");
    reveal_strlit("f64");
    reveal_strlit("Option<f64>");
    reveal_strlit("bool");
    reveal_strlit("Option<bool>");
    reveal_strlit("boolean");
    reveal_strlit("integer");
    reveal_strlit("number");
    reveal_strlit("string");
    reveal_strlit("Option<");
    reveal_strlit(">");
    assert("i32"@[0] != "f32"@[0] && "i64"@[0] != "f64"@[0] && "i32"@[1] != "i64"@[1] && "f32"@[1] != "f64"@[1]);
    assert("i32"@[0] != "f64"@[0] && "i64"@[0] != "f32"@[0]);
    assert("Option<i32>"@[7] != "Option<f32>"@[7] && "Option<i64>"@[7] != "Option<f64>"@[7]);
    assert("Option<i32>"@[7] != "Option<f64>"@[7] && "Option<i64>"@[7] != "Option<f32>"@[7]);
    assert("Option<i32>"@[8] != "Option<i64>"@[8] && "Option<f32>"@[8] != "Option<f64>"@[8]);
    assert("Vec<String>"@[0] != "Option<i32>"@[0] && "Vec<String>"@[0] != "Option<i64>"@[0]);
    assert("Vec<String>"@[0] != "Option<f32>"@[0] && "Vec<String>"@[0] != "Option<f64>"@[0]);
    assert("boolean"@[0] != "integer"@[0] && "boolean"@[0] != "string"@[0] && "integer"@[0] != "string"@[0]);
    assert("number"@[0] != "string"@[0]);
    let r = rust_type_spec(ft);
    match ft {
        FieldType::String | FieldType::OptionString | FieldType::VecString => {
            assert(r.len() == 6 || r.len() == 14 || r.len() == 11);
            assert(r != "bool"@ && r != "Option<bool>"@);
            assert(scalar_json_type(ft) == "string"@);
        },
        FieldType::Bool | FieldType::OptionBool => {
            assert(r.len() == 4 || r.len() == 12);
            assert(r != "String"@ && r != "Option<String>"@ && r != "Vec<String>"@);
            assert(scalar_json_type(ft) == "boolean"@);
        },
        _ => {
            assert(r.len() == 3 || r.len() == 11);
            assert(r != "String"@ && r != "Option<String>"@ && r != "bool"@ && r != "Option<bool>"@);
        },
    }
}

/// An optional field is documented with the JSON type of its value:
/// `Option<T>` and `T` get the same type.
pub proof fn law_optional_field_json_type(opt: FieldType, ft: FieldType)
    requires
        crate::schema::model::is_builtin_type(opt),
        crate::schema::model::is_builtin_type(ft),
        rust_type_spec(opt) == "Option<"@ + rust_type_spec(ft) + ">"@,
    ensures
        scalar_json_type(opt) == scalar_json_type(ft),
{
    reveal_strlit("String");
    reveal_strlit("Option<String>");
    reveal_strlit("Vec<String>");
    reveal_strlit("i32");
    reveal_strlit("Option<i32>");
    reveal_strlit("i64");
    reveal_strlit("Option<i64>");
    reveal_strlit("f32");
    reveal_strlit("Option<f32>");
    reveal_strlit("f64");
    reveal_strlit("Option<f64>");
    reveal_strlit("bool");
    reveal_strlit("Option<bool>");
    reveal_strlit("boolean");
    reveal_strlit("integer");
    reveal_strlit("number");
    reveal_strlit("string");
    reveal_strlit("Option<");
    reveal_strlit(">");
    law_json_type_follows_rust_type(opt);
    law_json_type_follows_rust_type(ft);
    let r = rust_type_spec(opt);
    assert(r.len() <= 14);
    match ft {
        FieldType::String => assert(r =~= "Option<String>"@),
        FieldType::I32 => assert(r =~= "Option<i32>"@),
        FieldType::I64 => assert(r =~= "Option<i64>"@),
        FieldType::F32 => assert(r =~= "Option<f32>"@),
        FieldType::F64 => assert(r =~= "Option<f64>"@),
        FieldType::Bool => assert(r =~= "Option<bool>"@),
        _ => assert(r.len() > 14),
    }
}

/// The description of a field's property: its doc, when it has one.
pub open spec fn description_ok(s: Schema, f: FieldDef) -> bool {
    if f.doc@.len() > 0 {
        s.description matches Some(d) && d@ == f.doc@
    } else {
        s.description is None
    }
}

/// The wire values of an enum's variants.
pub open spec fn variant_values(vs: Seq<EnumVariant>) -> Seq<Seq<char>> {
    vs.map_values(|v: EnumVariant| v.value@)
}

/// An array whose items have only the type `item`.
pub open spec fn array_of(s: Schema, item: Seq<char>) -> bool {
    &&& s.ty matches Some(t) && t@ == "array"@
    &&& s.items matches Some(b) && typed_only(*b, item)
}

/// One field's schema: an enum field carries its closed set; a `Vec` is an
/// array of its item type; any other field is its scalar type (an
/// `Option<T>` is `T`).
pub open spec fn property_ok(s: Schema, f: FieldDef, enums: Seq<EnumDef>) -> bool {
    &&& description_ok(s, f)
    &&& s.const_value is None
    &&& s.reference is None
    &&& s.properties is None
    &&& s.additional_properties is None
    &&& s.required is None
    &&& match enum_def_spec(f, enums) {
        Some(i) => {
            &&& s.ty matches Some(t) && t@ == "string"@
            &&& s.items is None
            &&& s.enum_values matches Some(v) && v.deep_view() == variant_values(enums[i].variants@)
        },
        None => {
            &&& s.enum_values is None
            &&& match f.field_type {
                FieldType::VecString => array_of(s, "string"@),
                FieldType::VecStruct(_) => array_of(s, "object"@),
                _ => s.ty matches Some(t) && t@ == scalar_json_type(f.field_type) && s.items is None,
            }
        },
    }
}

/// One field's schema.
pub fn property(field: &FieldDef, enums: &Vec<EnumDef>) -> (s: Schema)
    ensures
        property_ok(s, *field, enums@),
{
    let mut s = Schema::empty();
    proof {
        reveal_strlit("");
        assert(field.doc@.len() == 0 ==> field.doc@ =~= ""@);
    }
    if !crate::text::str_eq(field.doc.as_str(), "") {
        s.description = Some(field.doc.clone());
    }
    match enum_def(field, enums) {
        Some(i) => {
            let variants = &enums[i].variants;
            let mut values: Vec<String> = Vec::new();
            let mut k: usize = 0;
            while k < variants.len()
                invariant
                    k <= variants.len(),
                    values.deep_view() == variant_values(variants@.subrange(0, k as int)),
                decreases variants.len() - k,
            {
                let ghost before = values.deep_view();
                values.push(variants[k].value.clone());
                assert(variant_values(variants@.subrange(0, k + 1)) =~= before.push(variants@[k as int].value@));
                k = k + 1;
            }
            assert(variants@.subrange(0, k as int) =~= variants@);
            s.ty = Some(String::from_str("string"));
            s.enum_values = Some(values);
        },
        None => match &field.field_type {
            FieldType::VecString => {
                s.ty = Some(String::from_str("array"));
                s.items = Some(Box::new(Schema::typed("string")));
            },
            FieldType::VecStruct(_) => {
                s.ty = Some(String::from_str("array"));
                s.items = Some(Box::new(Schema::typed("object")));
            },
            FieldType::I32 | FieldType::OptionI32 | FieldType::I64 | FieldType::OptionI64 => {
                s.ty = Some(String::from_str("integer"));
            },
            FieldType::F32 | FieldType::OptionF32 | FieldType::F64 | FieldType::OptionF64 => {
                s.ty = Some(String::from_str("number"));
            },
            FieldType::Bool | FieldType::OptionBool => {
                s.ty = Some(String::from_str("boolean"));
            },
            _ => {
                s.ty = Some(String::from_str("string"));
            },
        },
    }
    s
}

// ─── Entity documents ───────────────────────────────────────────────────────

/// The JSON Schema of one entity.
#[derive(Debug)]
pub struct EntitySchemaDoc {
    /// `$schema`.
    pub schema: String,
    /// `$id`.
    pub id: String,
    /// `title`.
    pub title: String,
    /// `description`, left out when empty.
    pub description: String,
    /// `x-schema-revision`.
    pub revision: String,
    /// `type`.
    pub ty: String,
    /// `properties`, in field order.
    pub properties: Vec<(String, Schema)>,
    /// `required`.
    pub required: Vec<String>,
    /// `additionalProperties`.
    pub additional_properties: bool,
}

/// The file name of an entity's schema: `<entity_snake>.schema.json`.
pub open spec fn schema_file(name: Seq<char>) -> Seq<char> {
    snake_spec(name) + ".schema.json"@
}

/// The names of the required fields, in order.
pub open spec fn required_names(fs: Seq<FieldDef>) -> Seq<Seq<char>>
    decreases fs.len(),
{
    if fs.len() == 0 {
        Seq::empty()
    } else {
        let r = required_names(fs.drop_last());
        if required_spec(fs.last()) {
            r.push(fs.last().name@)
        } else {
            r
        }
    }
}

/// The file name of an entity's schema.
pub fn schema_file_name(name: &str) -> (r: String)
    ensures
        r@ == schema_file(name@),
{
    let mut r = to_snake_case(name);
    r.append(".schema.json");
    r
}

/// The JSON Schema of an entity: its fields as `properties` in order, the
/// non-optional ones as `required`, no other property allowed.
pub open spec fn entity_schema_ok(d: EntitySchemaDoc, entity: EntityDef, enums: Seq<EnumDef>, revision: Seq<char>) -> bool {
    &&& d.schema@ == DRAFT@
    &&& d.id@ == schema_file(entity.name@)
    &&& d.title@ == entity.name@
    &&& d.description@ == entity.doc@
    &&& d.revision@ == revision
    &&& d.ty@ == "object"@
    &&& d.properties@.len() == entity.fields@.len()
    &&& forall|i: int|
        0 <= i < d.properties@.len() ==> (#[trigger] d.properties@[i]).0@ == entity.fields@[i].name@
            && property_ok(d.properties@[i].1, entity.fields@[i], enums)
    &&& d.required.deep_view() == required_names(entity.fields@)
    &&& !d.additional_properties
}

/// The JSON Schema for one entity: its fields as `properties`, the
/// non-optional ones as `required`.
pub fn entity_schema(entity: &EntityDef, enums: &Vec<EnumDef>, revision: &str) -> (d: EntitySchemaDoc)
    ensures
        entity_schema_ok(d, *entity, enums@, revision@),
{
    let mut properties: Vec<(String, Schema)> = Vec::new();
    let mut required: Vec<String> = Vec::new();
    let mut i: usize = 0;
    assert(entity.fields@.subrange(0, 0) =~= Seq::<FieldDef>::empty());
    while i < entity.fields.len()
        invariant
            i <= entity.fields.len(),
            properties@.len() == i,
            forall|k: int|
                0 <= k < i ==> (#[trigger] properties@[k]).0@ == entity.fields@[k].name@ && property_ok(
                    properties@[k].1,
                    entity.fields@[k],
                    enums@,
                ),
            required.deep_view() == required_names(entity.fields@.subrange(0, i as int)),
        decreases entity.fields.len() - i,
    {
        let f = &entity.fields[i];
        let ghost s = entity.fields@.subrange(0, i + 1);
        assert(s.drop_last() =~= entity.fields@.subrange(0, i as int));
        assert(s.last() == *f);
        properties.push((f.name.clone(), property(f, enums)));
        if is_required(f) {
            let ghost before = required.deep_view();
            required.push(f.name.clone());
            assert(required.deep_view() =~= before.push(f.name@));
        }
        i = i + 1;
    }
    assert(entity.fields@.subrange(0, i as int) =~= entity.fields@);
    EntitySchemaDoc {
        schema: String::from_str(DRAFT),
        id: schema_file_name(entity.name.as_str()),
        title: entity.name.clone(),
        description: entity.doc.clone(),
        revision: String::from_str(revision),
        ty: String::from_str("object"),
        properties,
        required,
        additional_properties: false,
    }
}

// ─── Export bundle ──────────────────────────────────────────────────────────

/// The JSON Schema of an export bundle.
#[derive(Debug)]
pub struct ExportSchemaDoc {
    /// `$schema`.
    pub schema: String,
    /// `$id`.
    pub id: String,
    /// `title`.
    pub title: String,
    /// `x-schema-revision`.
    pub revision: String,
    /// `type`.
    pub ty: String,
    /// `properties`: `manifest`, then `tables`.
    pub properties: Vec<(String, Schema)>,
    /// `required`.
    pub required: Vec<String>,
}

/// The manifest's keys in order: the export format's contract.
pub open spec fn manifest_keys() -> Seq<Seq<char>> {
    seq![
        "format"@,
        "format_version"@,
        "schema_revision"@,
        "exported_at"@,
        "scope"@,
        "counts"@,
        "files"@,
    ]
}

/// An object whose values all have the type `ty`.
pub open spec fn map_of(s: Schema, ty: Seq<char>) -> bool {
    &&& s.ty matches Some(t) && t@ == "object"@
    &&& s.description is None
    &&& s.items is None
    &&& s.enum_values is None
    &&& s.const_value is None
    &&& s.reference is None
    &&& s.properties is None
    &&& s.required is None
    &&& s.additional_properties matches Some(b) && typed_only(*b, ty)
}

/// The bundle manifest: what was exported, when, and against which schema
/// revision; `format` is the constant `format`.
pub open spec fn manifest_ok(s: Schema, format: Seq<char>) -> bool {
    &&& s.ty matches Some(t) && t@ == "object"@
    &&& s.description is None
    &&& s.items is None
    &&& s.enum_values is None
    &&& s.const_value is None
    &&& s.reference is None
    &&& s.additional_properties is None
    &&& s.required matches Some(r) && r.deep_view() == manifest_keys()
    &&& s.properties matches Some(p) && {
        &&& p@.len() == 7
        &&& forall|i: int| 0 <= i < 7 ==> (#[trigger] p@[i]).0@ == manifest_keys()[i]
        &&& ({
            let f = p@[0].1;
            &&& f.ty is None
            &&& f.description is None
            &&& f.const_value matches Some(c) && c@ == format
            &&& f.items is None && f.enum_values is None && f.reference is None
            &&& f.properties is None && f.additional_properties is None && f.required is None
        })
        &&& typed_only(p@[1].1, "string"@)
        &&& typed_only(p@[2].1, "string"@)
        &&& typed_only(p@[3].1, "string"@)
        &&& typed_only(p@[4].1, "object"@)
        &&& map_of(p@[5].1, "integer"@)
        &&& map_of(p@[6].1, "string"@)
    }
}

fn map_schema(ty: &str) -> (s: Schema)
    ensures
        map_of(s, ty@),
{
    let mut s = Schema::typed("object");
    s.additional_properties = Some(Box::new(Schema::typed(ty)));
    s
}

/// The bundle manifest schema. Its field names are the export format's
/// contract, so they are spelled out here rather than derived.
pub fn manifest_schema(export_format: &str) -> (s: Schema)
    ensures
        manifest_ok(s, export_format@),
{
    let mut format = Schema::empty();
    format.const_value = Some(String::from_str(export_format));
    let mut props: Vec<(String, Schema)> = Vec::new();
    props.push((String::from_str("format"), format));
    props.push((String::from_str("format_version"), Schema::typed("string")));
    props.push((String::from_str("schema_revision"), Schema::typed("string")));
    props.push((String::from_str("exported_at"), Schema::typed("string")));
    props.push((String::from_str("scope"), Schema::typed("object")));
    props.push((String::from_str("counts"), map_schema("integer")));
    props.push((String::from_str("files"), map_schema("string")));
    let mut required: Vec<String> = Vec::new();
    required.push(String::from_str("format"));
    required.push(String::from_str("format_version"));
    required.push(String::from_str("schema_revision"));
    required.push(String::from_str("exported_at"));
    required.push(String::from_str("scope"));
    required.push(String::from_str("counts"));
    required.push(String::from_str("files"));
    assert(required.deep_view() =~= manifest_keys());
    let mut s = Schema::typed("object");
    s.properties = Some(props);
    s.required = Some(required);
    s
}

/// One table of the bundle: an array whose items `$ref` the entity's schema.
pub open spec fn table_ok(t: (String, Schema), e: EntityDef) -> bool {
    &&& t.0@ == e.table@
    &&& array_ref(t.1, schema_file(e.name@))
}

/// An array whose items are only a `$ref`.
pub open spec fn array_ref(s: Schema, target: Seq<char>) -> bool {
    &&& s.ty matches Some(t) && t@ == "array"@
    &&& s.description is None
    &&& s.enum_values is None
    &&& s.const_value is None
    &&& s.reference is None
    &&& s.properties is None
    &&& s.additional_properties is None
    &&& s.required is None
    &&& s.items matches Some(b) && ({
        &&& b.reference matches Some(r) && r@ == target
        &&& b.ty is None
        &&& b.description is None
        &&& bare(Schema { reference: None, ..*b })
    })
}

/// The JSON Schema of an export bundle: a `manifest` object and one array
/// of records per table, tables in the entities' name order.
pub open spec fn export_schema_ok(
    d: ExportSchemaDoc,
    entities: Seq<EntityDef>,
    title: Seq<char>,
    export_format: Seq<char>,
    revision: Seq<char>,
) -> bool {
    &&& d.schema@ == DRAFT@
    &&& d.id@ == "export.schema.json"@
    &&& d.title@ == title + " export bundle"@
    &&& d.revision@ == revision
    &&& d.ty@ == "object"@
    &&& d.required.deep_view() == seq!["manifest"@, "tables"@]
    &&& d.properties@.len() == 2
    &&& d.properties@[0].0@ == "manifest"@
    &&& manifest_ok(d.properties@[0].1, export_format)
    &&& d.properties@[1].0@ == "tables"@
    &&& ({
        let t = d.properties@[1].1;
        let sorted = sorted_entities_spec(entities);
        &&& t.ty matches Some(ty) && ty@ == "object"@
        &&& t.description is None && t.items is None && t.enum_values is None && t.const_value is None
        &&& t.reference is None && t.additional_properties is None && t.required is None
        &&& t.properties matches Some(p) && p@.len() == sorted.len() && forall|i: int|
            0 <= i < p@.len() ==> table_ok(#[trigger] p@[i], sorted[i])
    })
}

/// The JSON Schema for an export bundle: a `manifest` object and one array
/// of records per table, each item `$ref`-ing that entity's schema, tables
/// in the entities' name order.
pub fn export_schema(
    entities: &Vec<EntityDef>,
    title: &str,
    export_format: &str,
    revision: &str,
) -> (d: ExportSchemaDoc)
    ensures
        export_schema_ok(d, entities@, title@, export_format@, revision@),
{
    let order = sorted_entity_order(entities);
    let ghost sorted = pick(entities@, order@);
    let mut tables: Vec<(String, Schema)> = Vec::new();
    let mut k: usize = 0;
    while k < order.len()
        invariant
            k <= order.len(),
            sorted == pick(entities@, order@),
            forall|q: int| 0 <= q < order@.len() ==> #[trigger] order@[q] < entities@.len(),
            tables@.len() == k,
            forall|i: int| 0 <= i < k ==> table_ok(#[trigger] tables@[i], sorted[i]),
        decreases order.len() - k,
    {
        let entity = &entities[order[k]];
        let mut item = Schema::empty();
        item.reference = Some(schema_file_name(entity.name.as_str()));
        let mut array = Schema::typed("array");
        array.items = Some(Box::new(item));
        tables.push((entity.table.clone(), array));
        k = k + 1;
    }
    let mut tables_schema = Schema::typed("object");
    tables_schema.properties = Some(tables);
    let mut properties: Vec<(String, Schema)> = Vec::new();
    properties.push((String::from_str("manifest"), manifest_schema(export_format)));
    properties.push((String::from_str("tables"), tables_schema));
    let mut required: Vec<String> = Vec::new();
    required.push(String::from_str("manifest"));
    required.push(String::from_str("tables"));
    assert(required.deep_view() =~= seq!["manifest"@, "tables"@]);
    let mut t = String::from_str(title);
    t.append(" export bundle");
    ExportSchemaDoc {
        schema: String::from_str(DRAFT),
        id: String::from_str("export.schema.json"),
        title: t,
        revision: String::from_str(revision),
        ty: String::from_str("object"),
        properties,
        required,
    }
}

} // verus!
