//! The docs stage: a data-model reference and JSON Schema for the parsed
//! schema, with a revision digest of the schema's shape.

pub mod json_schema;
pub mod markdown;

use vstd::prelude::*;

use sha2::{Digest, Sha256};

use crate::docs::json_schema::{
    entity_schema, entity_schema_ok, export_schema, export_schema_ok, schema_file, EntitySchemaDoc, ExportSchemaDoc,
};
use crate::docs::markdown::{render, render_spec};
use crate::naming::{snake_spec, to_snake_case};
use crate::order::{insert_by, lemma_insert_at, lex_le, lex_le_exec, sort_by, sort_strings, sorted_spec};
use crate::schema::model::{EntityDef, EnumDef, FieldDef, FieldRole, FieldType, RelationInfo, RelationKind};
use crate::text::{chars_of, join, join_exec, starts_with, str_eq, str_starts_with, string_of_range};

verus! {

/// Where the docs go and what they are titled.
#[derive(Debug, Clone)]
pub struct DocsConfig {
    /// File the markdown reference is written to.
    pub markdown_output: String,
    /// Directory the JSON Schema files are written to.
    pub json_schema_dir: String,
    /// Title of the reference, and stem of the export bundle's title.
    pub title: String,
    /// The `manifest.format` constant of the export bundle schema.
    pub export_format: String,
}

// ─── Rust types ─────────────────────────────────────────────────────────────

/// The field's Rust type as written in the schema.
pub open spec fn rust_type_spec(ft: FieldType) -> Seq<char> {
    match ft {
        FieldType::String => "String"@,
        FieldType::OptionString => "Option<String>"@,
        FieldType::OptionEnum(name) => "Option<"@ + name@ + ">"@,
        FieldType::VecString => "Vec<String>"@,
        FieldType::VecStruct(name) => "Vec<"@ + name@ + ">"@,
        FieldType::I32 => "i32"@,
        FieldType::OptionI32 => "Option<i32>"@,
        FieldType::I64 => "i64"@,
        FieldType::OptionI64 => "Option<i64>"@,
        FieldType::F32 => "f32"@,
        FieldType::OptionF32 => "Option<f32>"@,
        FieldType::F64 => "f64"@,
        FieldType::OptionF64 => "Option<f64>"@,
        FieldType::Bool => "bool"@,
        FieldType::OptionBool => "Option<bool>"@,
        FieldType::Other(name) => name@,
    }
}

/// The field's Rust type as written in the schema, e.g. `Option<String>`.
pub fn rust_type(field: &FieldDef) -> (r: String)
    ensures
        r@ == rust_type_spec(field.field_type),
{
    match &field.field_type {
        FieldType::String => String::from_str("String"),
        FieldType::OptionString => String::from_str("Option<String>"),
        FieldType::OptionEnum(name) => {
            let mut r = String::from_str("Option<");
            r.append(name.as_str());
            r.append(">");
            r
        },
        FieldType::VecString => String::from_str("Vec<String>"),
        FieldType::VecStruct(name) => {
            let mut r = String::from_str("Vec<");
            r.append(name.as_str());
            r.append(">");
            r
        },
        FieldType::I32 => String::from_str("i32"),
        FieldType::OptionI32 => String::from_str("Option<i32>"),
        FieldType::I64 => String::from_str("i64"),
        FieldType::OptionI64 => String::from_str("Option<i64>"),
        FieldType::F32 => String::from_str("f32"),
        FieldType::OptionF32 => String::from_str("Option<f32>"),
        FieldType::F64 => String::from_str("f64"),
        FieldType::OptionF64 => String::from_str("Option<f64>"),
        FieldType::Bool => String::from_str("bool"),
        FieldType::OptionBool => String::from_str("Option<bool>"),
        FieldType::Other(name) => name.clone(),
    }
}

/// A field is required unless its Rust type is an `Option<...>`.
pub open spec fn required_spec(f: FieldDef) -> bool {
    !starts_with(rust_type_spec(f.field_type), "Option<"@)
}

/// A field is required unless its Rust type is an `Option<...>`.
pub fn is_required(field: &FieldDef) -> (b: bool)
    ensures
        b == required_spec(*field),
{
    let t = rust_type(field);
    !str_starts_with(t.as_str(), "Option<")
}

// ─── Revision ───────────────────────────────────────────────────────────────

/// The lowercase hex SHA-256 digest of a string's UTF-8 bytes.
pub uninterp spec fn sha256_lower_hex(data: Seq<char>) -> Seq<char>;

/// A lowercase hexadecimal digit.
pub open spec fn is_lower_hex(c: char) -> bool {
    ('0' <= c && c <= '9') || ('a' <= c && c <= 'f')
}

/// `sha2::Sha256::digest` of the string's bytes, formatted with `{:x}`:
/// the 32-byte digest as 64 lowercase hex digits, two per byte.
#[verifier::external_body]
fn sha256_hex(data: &str) -> (r: String)
    ensures
        r@ == sha256_lower_hex(data@),
        r@.len() == 64,
        forall|i: int| 0 <= i < 64 ==> is_lower_hex(#[trigger] r@[i]),
{
    let digest = Sha256::digest(data.as_bytes());
    format!("{digest:x}")
}

/// One line of the revision input: `<entity_snake>.<field>:<rust_type>`.
pub open spec fn revision_line(e: EntityDef, f: FieldDef) -> Seq<char> {
    snake_spec(e.name@) + "."@ + f.name@ + ":"@ + rust_type_spec(f.field_type)
}

/// The revision lines of one entity's fields, in order.
pub open spec fn entity_lines(e: EntityDef, fs: Seq<FieldDef>) -> Seq<Seq<char>>
    decreases fs.len(),
{
    if fs.len() == 0 {
        Seq::empty()
    } else {
        entity_lines(e, fs.drop_last()).push(revision_line(e, fs.last()))
    }
}

/// The revision lines of all entities, in order.
pub open spec fn revision_lines(es: Seq<EntityDef>) -> Seq<Seq<char>>
    decreases es.len(),
{
    if es.len() == 0 {
        Seq::empty()
    } else {
        revision_lines(es.drop_last()) + entity_lines(es.last(), es.last().fields@)
    }
}

/// The schema revision: the first 16 hex digits of the SHA-256 of the
/// sorted revision lines joined by newlines.
pub open spec fn revision_spec(es: Seq<EntityDef>) -> Seq<char> {
    sha256_lower_hex(join(sorted_spec(revision_lines(es)), "\n"@)).subrange(0, 16)
}

/// The revision lines of the entities.
pub fn schema_lines(entities: &Vec<EntityDef>) -> (r: Vec<String>)
    ensures
        r.deep_view() == revision_lines(entities@),
{
    let mut lines: Vec<String> = Vec::new();
    let mut i: usize = 0;
    assert(entities@.subrange(0, 0) =~= Seq::<EntityDef>::empty());
    while i < entities.len()
        invariant
            i <= entities.len(),
            lines.deep_view() == revision_lines(entities@.subrange(0, i as int)),
        decreases entities.len() - i,
    {
        let entity = &entities[i];
        let ghost s = entities@.subrange(0, i + 1);
        assert(s.drop_last() =~= entities@.subrange(0, i as int));
        assert(s.last() == *entity);
        let snake = to_snake_case(entity.name.as_str());
        let ghost start = lines.deep_view();
        let mut j: usize = 0;
        assert(entity.fields@.subrange(0, 0) =~= Seq::<FieldDef>::empty());
        assert(start =~= start + entity_lines(*entity, entity.fields@.subrange(0, 0)));
        while j < entity.fields.len()
            invariant
                j <= entity.fields.len(),
                snake@ == snake_spec(entity.name@),
                lines.deep_view() == start + entity_lines(*entity, entity.fields@.subrange(0, j as int)),
            decreases entity.fields.len() - j,
        {
            let field = &entity.fields[j];
            let ghost fs = entity.fields@.subrange(0, j + 1);
            assert(fs.drop_last() =~= entity.fields@.subrange(0, j as int));
            assert(fs.last() == *field);
            let t = rust_type(field);
            let mut line = snake.clone();
            line.append(".");
            line.append(field.name.as_str());
            line.append(":");
            line.append(t.as_str());
            let ghost before = lines.deep_view();
            lines.push(line);
            assert(lines.deep_view() =~= before.push(revision_line(*entity, *field)));
            j = j + 1;
        }
        assert(entity.fields@.subrange(0, j as int) =~= entity.fields@);
        i = i + 1;
    }
    assert(entities@.subrange(0, i as int) =~= entities@);
    lines
}

/// A short digest of the schema's shape: the first 16 hex characters of
/// the SHA-256 of the sorted `<entity_snake>.<field>:<rust_type>` lines.
/// It changes when a field is added, removed, renamed or retyped, and not
/// when a doc comment is reworded.
pub fn schema_revision(entities: &Vec<EntityDef>) -> (r: String)
    ensures
        r@ == revision_spec(entities@),
        r@.len() == 16,
{
    let mut lines = schema_lines(entities);
    sort_strings(&mut lines);
    let joined = join_exec(&lines, "\n");
    let hex = sha256_hex(joined.as_str());
    let v = chars_of(hex.as_str());
    string_of_range(&v, 0, 16)
}

/// The revision depends on the entities' names and their fields' names
/// and types alone: entities with the same revision lines have the same
/// revision, whatever their docs say.
pub proof fn law_revision_ignores_docs(a: Seq<EntityDef>, b: Seq<EntityDef>)
    requires
        revision_lines(a) == revision_lines(b),
    ensures
        revision_spec(a) == revision_spec(b),
{
}

// ─── Entity order ───────────────────────────────────────────────────────────

/// Entities ordered by name.
pub open spec fn entity_le_fn() -> spec_fn(EntityDef, EntityDef) -> bool {
    |a: EntityDef, b: EntityDef| lex_le(a.name@, b.name@)
}

/// The entities in reference order: stably sorted by name.
pub open spec fn sorted_entities_spec(es: Seq<EntityDef>) -> Seq<EntityDef> {
    sort_by(es, entity_le_fn())
}

/// The entities at the positions of `order`.
pub open spec fn pick(es: Seq<EntityDef>, order: Seq<usize>) -> Seq<EntityDef> {
    Seq::new(order.len(), |i: int| es[order[i] as int])
}

/// The positions of the entities in reference order: sorted by name, ties
/// kept in their schema order, so the document does not move when a
/// schema file is renamed.
pub fn sorted_entity_order(entities: &Vec<EntityDef>) -> (r: Vec<usize>)
    ensures
        forall|i: int| 0 <= i < r@.len() ==> #[trigger] r@[i] < entities@.len(),
        pick(entities@, r@) == sorted_entities_spec(entities@),
{
    let mut out: Vec<usize> = Vec::new();
    let mut k: usize = 0;
    assert(entities@.subrange(0, 0) =~= Seq::<EntityDef>::empty());
    assert(pick(entities@, out@) =~= Seq::<EntityDef>::empty());
    while k < entities.len()
        invariant
            k <= entities.len(),
            forall|i: int| 0 <= i < out@.len() ==> #[trigger] out@[i] < entities@.len(),
            pick(entities@, out@) == sorted_entities_spec(entities@.subrange(0, k as int)),
        decreases entities.len() - k,
    {
        let name = entities[k].name.as_str();
        let mut j: usize = 0;
        while j < out.len() && lex_le_exec(entities[out[j]].name.as_str(), name)
            invariant
                j <= out.len(),
                forall|i: int| 0 <= i < out@.len() ==> #[trigger] out@[i] < entities@.len(),
                forall|i: int| 0 <= i < j ==> lex_le(entities@[(#[trigger] out@[i]) as int].name@, name@),
            decreases out.len() - j,
        {
            j = j + 1;
        }
        let ghost before = pick(entities@, out@);
        proof {
            let x = entities@[k as int];
            assert forall|q: int| 0 <= q < j implies #[trigger] entity_le_fn()(before[q], x) by {
                assert(before[q] == entities@[out@[q] as int]);
            }
            if j < out.len() {
                assert(!entity_le_fn()(before[j as int], x));
            }
            lemma_insert_at(before, x, j as int, entity_le_fn());
            let sub = entities@.subrange(0, k + 1);
            assert(sub.drop_last() =~= entities@.subrange(0, k as int));
            assert(sub.last() == x);
        }
        out.insert(j, k);
        assert(pick(entities@, out@) =~= before.insert(j as int, entities@[k as int]));
        k = k + 1;
    }
    assert(entities@.subrange(0, k as int) =~= entities@);
    out
}

// ─── Field facts ────────────────────────────────────────────────────────────

/// The index of the first enum named `name`.
pub open spec fn find_enum(enums: Seq<EnumDef>, name: Seq<char>) -> Option<int>
    decreases enums.len(),
{
    if enums.len() == 0 {
        None
    } else {
        match find_enum(enums.drop_last(), name) {
            Some(i) => Some(i),
            None => if enums.last().name@ == name {
                Some(enums.len() - 1)
            } else {
                None
            },
        }
    }
}

/// The name of the type an enum-typed field refers to.
pub open spec fn enum_ref(ft: FieldType) -> Option<Seq<char>> {
    match ft {
        FieldType::OptionEnum(name) => Some(name@),
        FieldType::Other(name) => Some(name@),
        _ => None,
    }
}

/// The declared enum a field's type names, as an index into `enums`.
pub open spec fn enum_def_spec(f: FieldDef, enums: Seq<EnumDef>) -> Option<int> {
    match enum_ref(f.field_type) {
        Some(name) => find_enum(enums, name),
        None => None,
    }
}

/// The string enum a field's type names, if one is declared: the first of
/// `enums` with that name.
pub fn enum_def(field: &FieldDef, enums: &Vec<EnumDef>) -> (r: Option<usize>)
    ensures
        match r {
            Some(i) => enum_def_spec(*field, enums@) == Some(i as int) && i < enums@.len(),
            None => enum_def_spec(*field, enums@) is None,
        },
{
    let name = match &field.field_type {
        FieldType::OptionEnum(name) => name.as_str(),
        FieldType::Other(name) => name.as_str(),
        _ => {
            return None;
        },
    };
    let mut i: usize = 0;
    assert(enums@.subrange(0, 0) =~= Seq::<EnumDef>::empty());
    while i < enums.len()
        invariant
            i <= enums.len(),
            enum_ref(field.field_type) == Some(name@),
            find_enum(enums@.subrange(0, i as int), name@) is None,
        decreases enums.len() - i,
    {
        let ghost s = enums@.subrange(0, i + 1);
        assert(s.drop_last() =~= enums@.subrange(0, i as int));
        if str_eq(enums[i].name.as_str(), name) {
            proof {
                lemma_find_enum_prefix(enums@, name@, i as int);
            }
            return Some(i);
        }
        i = i + 1;
    }
    assert(enums@.subrange(0, i as int) =~= enums@);
    None
}

/// A match found in a prefix is the match of the whole list.
pub proof fn lemma_find_enum_prefix(enums: Seq<EnumDef>, name: Seq<char>, i: int)
    requires
        0 <= i < enums.len(),
        find_enum(enums.subrange(0, i), name) is None,
        enums[i].name@ == name,
    ensures
        find_enum(enums, name) == Some(i),
    decreases enums.len(),
{
    if i < enums.len() - 1 {
        assert(enums.drop_last().subrange(0, i) =~= enums.subrange(0, i));
        lemma_find_enum_prefix(enums.drop_last(), name, i);
    } else {
        assert(enums.drop_last() =~= enums.subrange(0, i));
    }
}

/// The field is a `belongs_to` relation.
pub open spec fn is_belongs_to_field(f: FieldDef) -> bool {
    f.role matches FieldRole::Relation(info) && info.kind == RelationKind::BelongsTo
}

/// The target of a relation field.
pub open spec fn target_of(f: FieldDef) -> Seq<char> {
    match f.role {
        FieldRole::Relation(info) => info.target@,
        _ => Seq::empty(),
    }
}

/// Whether the field is a `belongs_to` relation, and its target if so.
pub fn belongs_to_target(f: &FieldDef) -> (r: Option<&String>)
    ensures
        match r {
            Some(t) => is_belongs_to_field(*f) && t@ == target_of(*f),
            None => !is_belongs_to_field(*f),
        },
{
    match &f.role {
        FieldRole::Relation(info) => match info.kind {
            RelationKind::BelongsTo => Some(&info.target),
            _ => None,
        },
        _ => None,
    }
}

// ─── The stage ──────────────────────────────────────────────────────────────

/// The documents of the docs stage, for the caller to write.
#[derive(Debug)]
pub struct DocsOutput {
    /// The schema revision.
    pub revision: String,
    /// The markdown reference, for `markdown_output`.
    pub markdown: String,
    /// One JSON Schema per entity, with its file name in `json_schema_dir`.
    pub entity_schemas: Vec<(String, EntitySchemaDoc)>,
    /// The export bundle schema, for `export.schema.json`.
    pub export: ExportSchemaDoc,
}

/// Build the data-model reference and the JSON Schema documents, all
/// stamped with the schema revision.
pub fn generate(entities: &Vec<EntityDef>, enums: &Vec<EnumDef>, config: &DocsConfig) -> (r: DocsOutput)
    ensures
        r.revision@ == revision_spec(entities@),
        r.markdown@ == render_spec(entities@, enums@, config.title@, r.revision@),
        r.entity_schemas@.len() == entities@.len(),
        forall|i: int|
            0 <= i < entities@.len() ==> (#[trigger] r.entity_schemas@[i]).0@ == schema_file(entities@[i].name@)
                && entity_schema_ok(r.entity_schemas@[i].1, entities@[i], enums@, r.revision@),
        export_schema_ok(r.export, entities@, config.title@, config.export_format@, r.revision@),
{
    let revision = schema_revision(entities);
    let markdown = render(entities, enums, config, revision.as_str());
    let mut entity_schemas: Vec<(String, EntitySchemaDoc)> = Vec::new();
    let mut i: usize = 0;
    while i < entities.len()
        invariant
            i <= entities.len(),
            entity_schemas@.len() == i,
            forall|k: int|
                0 <= k < i ==> (#[trigger] entity_schemas@[k]).0@ == schema_file(entities@[k].name@)
                    && entity_schema_ok(entity_schemas@[k].1, entities@[k], enums@, revision@),
        decreases entities.len() - i,
    {
        let entity = &entities[i];
        let doc = entity_schema(entity, enums, revision.as_str());
        entity_schemas.push((crate::docs::json_schema::schema_file_name(entity.name.as_str()), doc));
        i = i + 1;
    }
    let export = export_schema(entities, config.title.as_str(), config.export_format.as_str(), revision.as_str());
    DocsOutput { revision, markdown, entity_schemas, export }
}

} // verus!
