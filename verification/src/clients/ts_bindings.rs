//! The schema-known TypeScript surface: type aliases for the entities and
//! their generated Create/Update DTOs, written straight from the entity
//! model; and the long-tail root set, the user-owned types the client
//! surface references that this emitter does not write.

use vstd::prelude::*;

use crate::clients::config::Config;
use crate::order::{dedup_sorted, distinct_strings, sort_strings, sorted_set, sorted_strings};
use crate::schema::model::{EntityDef, FieldDef, FieldRole, FieldType};
use crate::servers::parse::{ApiFn, ApiModule, Param};
use crate::servers::routes::{command_name, command_spec};
use crate::servers::types::{
    add_ts_import, collect_ts_import, extract_input_type, rust_type_to_ts, strip_ref_spec, ts_type_spec,
    vec_contains_str,
};
use crate::store::gen_update::is_persistence_only;
use crate::text::{chars_of, is_ascii_alnum, is_ascii_alpha, str_eq, trim, trim_exec};

verus! {

// ─── User idents ────────────────────────────────────────────────────────────

/// A Rust primitive scalar or a standard string / path type name.
pub open spec fn is_scalar_name(s: Seq<char>) -> bool {
    ||| s == "bool"@
    ||| s == "char"@
    ||| s == "i8"@
    ||| s == "i16"@
    ||| s == "i32"@
    ||| s == "i64"@
    ||| s == "i128"@
    ||| s == "isize"@
    ||| s == "u8"@
    ||| s == "u16"@
    ||| s == "u32"@
    ||| s == "u64"@
    ||| s == "u128"@
    ||| s == "usize"@
    ||| s == "f32"@
    ||| s == "f64"@
    ||| s == "String"@
    ||| s == "str"@
    ||| s == "PathBuf"@
    ||| s == "Path"@
}

/// A single-segment Rust ident naming a user-defined type: a letter, then
/// letters, digits or underscores, and not a scalar name.
pub open spec fn simple_ident_spec(s: Seq<char>) -> bool {
    &&& s.len() > 0
    &&& is_ascii_alpha(s[0])
    &&& forall|i: int| 0 <= i < s.len() ==> is_ascii_alnum(#[trigger] s[i]) || s[i] == '_'
    &&& !is_scalar_name(s)
}

/// True when `s` looks like a single-segment Rust ident that names a
/// user-defined type (so suitable as a long-tail root candidate).
///
/// Rejects empty strings, anything containing `::`, `<`, `>`, `&` or
/// whitespace, anything starting with a non-letter, and the Rust scalar
/// and string type names.
pub fn is_simple_user_ident(s: &str) -> (b: bool)
    ensures
        b == simple_ident_spec(s@),
{
    let v = chars_of(s);
    if v.len() == 0 {
        return false;
    }
    let first = v[0];
    if !(('A' <= first && first <= 'Z') || ('a' <= first && first <= 'z')) {
        return false;
    }
    let mut i: usize = 0;
    while i < v.len()
        invariant
            i <= v.len(),
            v@ == s@,
            forall|j: int| 0 <= j < i ==> is_ascii_alnum(#[trigger] v@[j]) || v@[j] == '_',
        decreases v.len() - i,
    {
        let c = v[i];
        let ok = ('A' <= c && c <= 'Z') || ('a' <= c && c <= 'z') || ('0' <= c && c <= '9') || c == '_';
        if !ok {
            assert(!(is_ascii_alnum(s@[i as int]) || s@[i as int] == '_'));
            return false;
        }
        i = i + 1;
    }
    let scalar = str_eq(s, "bool") || str_eq(s, "char") || str_eq(s, "i8") || str_eq(s, "i16") || str_eq(s, "i32")
        || str_eq(s, "i64") || str_eq(s, "i128") || str_eq(s, "isize") || str_eq(s, "u8") || str_eq(s, "u16")
        || str_eq(s, "u32") || str_eq(s, "u64") || str_eq(s, "u128") || str_eq(s, "usize") || str_eq(s, "f32")
        || str_eq(s, "f64") || str_eq(s, "String") || str_eq(s, "str") || str_eq(s, "PathBuf") || str_eq(
        s,
        "Path",
    );
    !scalar
}

/// The user-defined ident a field type names, if any.
pub open spec fn user_ident_spec(ft: FieldType) -> Option<Seq<char>> {
    match ft {
        FieldType::OptionEnum(name) => if simple_ident_spec(name@) {
            Some(name@)
        } else {
            None
        },
        FieldType::VecStruct(name) => if simple_ident_spec(name@) {
            Some(name@)
        } else {
            None
        },
        FieldType::Other(rendered) => if simple_ident_spec(trim(rendered@)) {
            Some(trim(rendered@))
        } else {
            None
        },
        _ => None,
    }
}

/// Extract a single user-defined ident from a field type, or `None` if the
/// field type is a primitive, a container, or a qualified or generic path.
///
/// - `OptionEnum(name)` / `VecStruct(name)`: the inner ident, when simple.
/// - `Other(rendered)`: the trimmed rendering, when it is a simple ident.
/// - All other variants: `None`.
pub fn field_type_user_ident(ft: &FieldType) -> (r: Option<String>)
    ensures
        match r {
            Some(n) => user_ident_spec(*ft) == Some(n@),
            None => user_ident_spec(*ft) is None,
        },
{
    match ft {
        FieldType::OptionEnum(name) | FieldType::VecStruct(name) => {
            if is_simple_user_ident(name.as_str()) {
                Some(name.clone())
            } else {
                None
            }
        },
        FieldType::Other(rendered) => {
            let trimmed = trim_exec(rendered.as_str());
            if is_simple_user_ident(trimmed.as_str()) {
                Some(trimmed)
            } else {
                None
            }
        },
        _ => None,
    }
}

// ─── Field filters and TypeScript types ─────────────────────────────────────

/// The field is part of the entity type: not skipped, not persistence-only.
pub open spec fn in_entity(f: FieldDef) -> bool {
    !(f.role is Skip) && !is_persistence_only(f.name@)
}

/// The field is part of the DTOs: not persistence-only.
pub open spec fn in_dto(f: FieldDef) -> bool {
    !is_persistence_only(f.name@)
}

/// The field is part of the update DTO: a DTO field other than the id.
pub open spec fn in_update_dto(f: FieldDef) -> bool {
    in_dto(f) && !(f.role is Id)
}

/// Whether the field is part of the entity type.
pub fn include_in_entity(f: &FieldDef) -> (b: bool)
    ensures
        b == in_entity(*f),
{
    let skip = match f.role {
        FieldRole::Skip => true,
        _ => false,
    };
    !skip && !str_eq(f.name.as_str(), "wikilinks") && !str_eq(f.name.as_str(), "source_file")
}

/// Whether the field is part of the Create/Update DTOs.
pub fn include_in_dto(f: &FieldDef) -> (b: bool)
    ensures
        b == in_dto(*f),
{
    !str_eq(f.name.as_str(), "wikilinks") && !str_eq(f.name.as_str(), "source_file")
}

/// The TypeScript type of a field type.
pub open spec fn field_ts_spec(ft: FieldType) -> Seq<char> {
    match ft {
        FieldType::String => "string"@,
        FieldType::OptionString => "string | null"@,
        FieldType::I32 => "number"@,
        FieldType::I64 => "number"@,
        FieldType::F32 => "number"@,
        FieldType::F64 => "number"@,
        FieldType::OptionI32 => "number | null"@,
        FieldType::OptionI64 => "number | null"@,
        FieldType::OptionF32 => "number | null"@,
        FieldType::OptionF64 => "number | null"@,
        FieldType::Bool => "boolean"@,
        FieldType::OptionBool => "boolean | null"@,
        FieldType::VecString => "string[]"@,
        FieldType::VecStruct(name) => name@ + "[]"@,
        FieldType::OptionEnum(name) => name@ + " | null"@,
        FieldType::Other(name) => name@,
    }
}

/// A field's TypeScript type is the TypeScript of the field's Rust type,
/// as the transport's type mapping writes it: `String` is `string`, the
/// integer and float types `number`, `bool` `boolean`, `Vec<String>`
/// `string[]`, and an optional field is its value's type ` | null`.
pub proof fn law_field_ts_follows_rust_type(ft: FieldType)
    requires
        crate::schema::model::is_builtin_type(ft),
    ensures
        field_ts_spec(ft) == crate::servers::types::ts_type_spec(crate::docs::rust_type_spec(ft)),
{
    crate::servers::types::lemma_ts_of_scalars();
    reveal_strlit("String");
    reveal_strlit("i32");
    reveal_strlit("i64");
    reveal_strlit("f32");
    reveal_strlit("f64");
    reveal_strlit("bool");
    reveal_strlit("Option<");
    reveal_strlit("Vec<");
    reveal_strlit(">");
    reveal_strlit(" | null");
    reveal_strlit("[]");
    reveal_strlit("Option<String>");
    reveal_strlit("Option<i32>");
    reveal_strlit("Option<i64>");
    reveal_strlit("Option<f32>");
    reveal_strlit("Option<f64>");
    reveal_strlit("Option<bool>");
    reveal_strlit("Vec<String>");
    reveal_strlit("string | null");
    reveal_strlit("number | null");
    reveal_strlit("boolean | null");
    reveal_strlit("string[]");
    reveal_strlit("string");
    reveal_strlit("number");
    reveal_strlit("boolean");
    let r = crate::docs::rust_type_spec(ft);
    match ft {
        FieldType::OptionString => {
            crate::servers::types::law_ts_constructors("String"@);
            assert(r =~= "Option<"@ + "String"@ + ">"@);
        },
        FieldType::OptionI32 => {
            crate::servers::types::law_ts_constructors("i32"@);
            assert(r =~= "Option<"@ + "i32"@ + ">"@);
        },
        FieldType::OptionI64 => {
            crate::servers::types::law_ts_constructors("i64"@);
            assert(r =~= "Option<"@ + "i64"@ + ">"@);
        },
        FieldType::OptionF32 => {
            crate::servers::types::law_ts_constructors("f32"@);
            assert(r =~= "Option<"@ + "f32"@ + ">"@);
        },
        FieldType::OptionF64 => {
            crate::servers::types::law_ts_constructors("f64"@);
            assert(r =~= "Option<"@ + "f64"@ + ">"@);
        },
        FieldType::OptionBool => {
            crate::servers::types::law_ts_constructors("bool"@);
            assert(r =~= "Option<"@ + "bool"@ + ">"@);
        },
        FieldType::VecString => {
            crate::servers::types::law_ts_constructors("String"@);
            assert(r =~= "Vec<"@ + "String"@ + ">"@);
        },
        _ => {},
    }
}

/// An optional field's TypeScript type is its value's type ` | null`:
/// `Option<T>` and `T` differ only by that suffix.
pub proof fn law_optional_field_ts(opt: FieldType, ft: FieldType)
    requires
        crate::schema::model::is_builtin_type(opt),
        crate::schema::model::is_builtin_type(ft),
        crate::docs::rust_type_spec(opt) == "Option<"@ + crate::docs::rust_type_spec(ft) + ">"@,
    ensures
        field_ts_spec(opt) == field_ts_spec(ft) + " | null"@,
{
    law_field_ts_follows_rust_type(opt);
    law_field_ts_follows_rust_type(ft);
    crate::servers::types::law_ts_constructors(crate::docs::rust_type_spec(ft));
}

/// The TypeScript type of a field type.
pub fn field_to_ts(ft: &FieldType) -> (r: String)
    ensures
        r@ == field_ts_spec(*ft),
{
    match ft {
        FieldType::String => String::from_str("string"),
        FieldType::OptionString => String::from_str("string | null"),
        FieldType::I32 | FieldType::I64 | FieldType::F32 | FieldType::F64 => String::from_str("number"),
        FieldType::OptionI32 | FieldType::OptionI64 | FieldType::OptionF32 | FieldType::OptionF64 => String::from_str(
            "number | null",
        ),
        FieldType::Bool => String::from_str("boolean"),
        FieldType::OptionBool => String::from_str("boolean | null"),
        FieldType::VecString => String::from_str("string[]"),
        FieldType::VecStruct(name) => {
            let mut r = name.clone();
            r.append("[]");
            r
        },
        FieldType::OptionEnum(name) => {
            let mut r = name.clone();
            r.append(" | null");
            r
        },
        FieldType::Other(name) => name.clone(),
    }
}

// ─── Emission ───────────────────────────────────────────────────────────────

/// One required property line: `  name: type;`.
pub open spec fn prop_line(f: FieldDef) -> Seq<char> {
    "  "@ + f.name@ + ": "@ + field_ts_spec(f.field_type) + ";\n"@
}

/// One optional, nullable property line: `  name?: type | null;`.
pub open spec fn opt_prop_line(f: FieldDef) -> Seq<char> {
    "  "@ + f.name@ + "?: "@ + field_ts_spec(f.field_type) + " | null;\n"@
}

/// The entity type's property lines.
pub open spec fn entity_props(fs: Seq<FieldDef>) -> Seq<char>
    decreases fs.len(),
{
    if fs.len() == 0 {
        Seq::empty()
    } else {
        entity_props(fs.drop_last()) + if in_entity(fs.last()) {
            prop_line(fs.last())
        } else {
            Seq::empty()
        }
    }
}

/// The create DTO's property lines.
pub open spec fn create_props(fs: Seq<FieldDef>) -> Seq<char>
    decreases fs.len(),
{
    if fs.len() == 0 {
        Seq::empty()
    } else {
        create_props(fs.drop_last()) + if in_dto(fs.last()) {
            prop_line(fs.last())
        } else {
            Seq::empty()
        }
    }
}

/// The update DTO's property lines.
pub open spec fn update_props(fs: Seq<FieldDef>) -> Seq<char>
    decreases fs.len(),
{
    if fs.len() == 0 {
        Seq::empty()
    } else {
        update_props(fs.drop_last()) + if in_update_dto(fs.last()) {
            opt_prop_line(fs.last())
        } else {
            Seq::empty()
        }
    }
}

/// `export type {Entity} = { ... };`
pub open spec fn entity_text(e: EntityDef) -> Seq<char> {
    "export type "@ + e.name@ + " = {\n"@ + entity_props(e.fields@) + "};\n"@
}

/// `export type Create{Entity}Input = { ... };`
pub open spec fn create_text(e: EntityDef) -> Seq<char> {
    "export type Create"@ + e.name@ + "Input = {\n"@ + create_props(e.fields@) + "};\n"@
}

/// `export type Update{Entity}Input = { ... };`, every property optional.
pub open spec fn update_text(e: EntityDef) -> Seq<char> {
    "export type Update"@ + e.name@ + "Input = {\n"@ + update_props(e.fields@) + "};\n"@
}

/// The entity type alias: every field but the skipped and persistence-only
/// ones.
pub fn emit_entity(entity: &EntityDef) -> (r: String)
    ensures
        r@ == entity_text(*entity),
{
    let mut out = String::from_str("export type ");
    out.append(entity.name.as_str());
    out.append(" = {\n");
    let ghost head = out@;
    let mut i: usize = 0;
    assert(entity.fields@.subrange(0, 0) =~= Seq::<FieldDef>::empty());
    assert(head =~= head + entity_props(entity.fields@.subrange(0, 0)));
    while i < entity.fields.len()
        invariant
            i <= entity.fields.len(),
            out@ == head + entity_props(entity.fields@.subrange(0, i as int)),
        decreases entity.fields.len() - i,
    {
        let f = &entity.fields[i];
        let ghost s = entity.fields@.subrange(0, i + 1);
        assert(s.drop_last() =~= entity.fields@.subrange(0, i as int));
        assert(s.last() == *f);
        if include_in_entity(f) {
            let t = field_to_ts(&f.field_type);
            let mut line = String::from_str("  ");
            line.append(f.name.as_str());
            line.append(": ");
            line.append(t.as_str());
            line.append(";\n");
            out.append(line.as_str());
        }
        i = i + 1;
    }
    assert(entity.fields@.subrange(0, i as int) =~= entity.fields@);
    out.append("};\n");
    out
}

/// The create DTO alias: every field but the persistence-only ones.
pub fn emit_create_dto(entity: &EntityDef) -> (r: String)
    ensures
        r@ == create_text(*entity),
{
    let mut out = String::from_str("export type Create");
    out.append(entity.name.as_str());
    out.append("Input = {\n");
    let ghost head = out@;
    let mut i: usize = 0;
    assert(entity.fields@.subrange(0, 0) =~= Seq::<FieldDef>::empty());
    assert(head =~= head + create_props(entity.fields@.subrange(0, 0)));
    while i < entity.fields.len()
        invariant
            i <= entity.fields.len(),
            out@ == head + create_props(entity.fields@.subrange(0, i as int)),
        decreases entity.fields.len() - i,
    {
        let f = &entity.fields[i];
        let ghost s = entity.fields@.subrange(0, i + 1);
        assert(s.drop_last() =~= entity.fields@.subrange(0, i as int));
        assert(s.last() == *f);
        if include_in_dto(f) {
            let t = field_to_ts(&f.field_type);
            let mut line = String::from_str("  ");
            line.append(f.name.as_str());
            line.append(": ");
            line.append(t.as_str());
            line.append(";\n");
            out.append(line.as_str());
        }
        i = i + 1;
    }
    assert(entity.fields@.subrange(0, i as int) =~= entity.fields@);
    out.append("};\n");
    out
}

/// The update DTO alias: every DTO field but the id, each optional and
/// nullable.
pub fn emit_update_dto(entity: &EntityDef) -> (r: String)
    ensures
        r@ == update_text(*entity),
{
    let mut out = String::from_str("export type Update");
    out.append(entity.name.as_str());
    out.append("Input = {\n");
    let ghost head = out@;
    let mut i: usize = 0;
    assert(entity.fields@.subrange(0, 0) =~= Seq::<FieldDef>::empty());
    assert(head =~= head + update_props(entity.fields@.subrange(0, 0)));
    while i < entity.fields.len()
        invariant
            i <= entity.fields.len(),
            out@ == head + update_props(entity.fields@.subrange(0, i as int)),
        decreases entity.fields.len() - i,
    {
        let f = &entity.fields[i];
        let ghost s = entity.fields@.subrange(0, i + 1);
        assert(s.drop_last() =~= entity.fields@.subrange(0, i as int));
        assert(s.last() == *f);
        let is_id = match f.role {
            FieldRole::Id => true,
            _ => false,
        };
        if include_in_dto(f) && !is_id {
            let t = field_to_ts(&f.field_type);
            let mut line = String::from_str("  ");
            line.append(f.name.as_str());
            line.append("?: ");
            line.append(t.as_str());
            line.append(" | null;\n");
            out.append(line.as_str());
        }
        i = i + 1;
    }
    assert(entity.fields@.subrange(0, i as int) =~= entity.fields@);
    out.append("};\n");
    out
}

/// The three aliases of one entity, each followed by a blank line.
pub open spec fn entity_block(e: EntityDef) -> Seq<char> {
    entity_text(e) + "\n"@ + create_text(e) + "\n"@ + update_text(e) + "\n"@
}

/// The blocks of the entities, in order.
pub open spec fn entity_blocks(es: Seq<EntityDef>) -> Seq<char>
    decreases es.len(),
{
    if es.len() == 0 {
        Seq::empty()
    } else {
        entity_blocks(es.drop_last()) + entity_block(es.last())
    }
}

/// The header of the schema-known bindings.
pub open spec fn bindings_header() -> Seq<char> {
    "// Auto-generated by ontogen. DO NOT EDIT.\n"@
        + "// Schema-known surface: entities + generated Create/Update DTOs.\n\n"@
}

/// The whole schema-known bindings text.
pub open spec fn bindings_text(es: Seq<EntityDef>) -> Seq<char> {
    bindings_header() + entity_blocks(es)
}

/// Render the schema-known TypeScript surface: a header, then for each
/// entity its type, its create DTO and its update DTO.
pub fn emit(entities: &Vec<EntityDef>) -> (r: String)
    ensures
        r@ == bindings_text(entities@),
{
    let mut out = String::from_str("// Auto-generated by ontogen. DO NOT EDIT.\n");
    out.append("// Schema-known surface: entities + generated Create/Update DTOs.\n\n");
    let ghost head = out@;
    proof {
        reveal_strlit("// Auto-generated by ontogen. DO NOT EDIT.\n");
        reveal_strlit("// Schema-known surface: entities + generated Create/Update DTOs.\n\n");
    }
    assert(head =~= bindings_header());
    let mut i: usize = 0;
    assert(entities@.subrange(0, 0) =~= Seq::<EntityDef>::empty());
    assert(head =~= head + entity_blocks(entities@.subrange(0, 0)));
    while i < entities.len()
        invariant
            i <= entities.len(),
            out@ == head + entity_blocks(entities@.subrange(0, i as int)),
        decreases entities.len() - i,
    {
        let e = &entities[i];
        let ghost s = entities@.subrange(0, i + 1);
        assert(s.drop_last() =~= entities@.subrange(0, i as int));
        assert(s.last() == *e);
        let a = emit_entity(e);
        let b = emit_create_dto(e);
        let c = emit_update_dto(e);
        let mut block = a;
        block.append("\n");
        block.append(b.as_str());
        block.append("\n");
        block.append(c.as_str());
        block.append("\n");
        out.append(block.as_str());
        i = i + 1;
    }
    assert(entities@.subrange(0, i as int) =~= entities@);
    out
}

// ─── Referenced names ───────────────────────────────────────────────────────

/// `names` with `x` appended when it is a name not yet there.
pub open spec fn add_new(names: Seq<Seq<char>>, x: Option<Seq<char>>) -> Seq<Seq<char>> {
    match x {
        Some(n) => if names.contains(n) {
            names
        } else {
            names.push(n)
        },
        None => names,
    }
}

/// The user idents of the entity fields in `fs`, added in order to `acc`.
pub open spec fn field_idents(fs: Seq<FieldDef>, acc: Seq<Seq<char>>) -> Seq<Seq<char>>
    decreases fs.len(),
{
    if fs.len() == 0 {
        acc
    } else {
        let a = field_idents(fs.drop_last(), acc);
        if in_entity(fs.last()) {
            add_new(a, user_ident_spec(fs.last().field_type))
        } else {
            a
        }
    }
}

/// The user idents of all entities' fields, first occurrence first.
pub open spec fn entity_idents(es: Seq<EntityDef>) -> Seq<Seq<char>>
    decreases es.len(),
{
    if es.len() == 0 {
        Seq::empty()
    } else {
        field_idents(es.last().fields@, entity_idents(es.drop_last()))
    }
}

/// Type idents referenced by entity fields that point at user-defined
/// types: each once, in order of first occurrence, taken only from fields
/// that are part of the entity type.
pub fn entity_field_type_names(entities: &Vec<EntityDef>) -> (r: Vec<String>)
    ensures
        r.deep_view() == entity_idents(entities@),
{
    let mut names: Vec<String> = Vec::new();
    let mut i: usize = 0;
    assert(entities@.subrange(0, 0) =~= Seq::<EntityDef>::empty());
    while i < entities.len()
        invariant
            i <= entities.len(),
            names.deep_view() == entity_idents(entities@.subrange(0, i as int)),
        decreases entities.len() - i,
    {
        let entity = &entities[i];
        let ghost s = entities@.subrange(0, i + 1);
        assert(s.drop_last() =~= entities@.subrange(0, i as int));
        assert(s.last() == *entity);
        let ghost start = names.deep_view();
        let mut j: usize = 0;
        assert(entity.fields@.subrange(0, 0) =~= Seq::<FieldDef>::empty());
        while j < entity.fields.len()
            invariant
                j <= entity.fields.len(),
                names.deep_view() == field_idents(entity.fields@.subrange(0, j as int), start),
            decreases entity.fields.len() - j,
        {
            let field = &entity.fields[j];
            let ghost fs = entity.fields@.subrange(0, j + 1);
            assert(fs.drop_last() =~= entity.fields@.subrange(0, j as int));
            assert(fs.last() == *field);
            if include_in_entity(field) {
                match field_type_user_ident(&field.field_type) {
                    Some(name) => {
                        if !vec_contains_str(&names, name.as_str()) {
                            let ghost before = names.deep_view();
                            names.push(name);
                            assert(names.deep_view() =~= before.push(name@));
                        }
                    },
                    None => {},
                }
            }
            j = j + 1;
        }
        assert(entity.fields@.subrange(0, j as int) =~= entity.fields@);
        i = i + 1;
    }
    assert(entities@.subrange(0, i as int) =~= entities@);
    names
}

/// The names the schema-known emitter writes: each entity, then its create
/// and update DTO names.
pub open spec fn known_names(es: Seq<EntityDef>) -> Seq<Seq<char>>
    decreases es.len(),
{
    if es.len() == 0 {
        Seq::empty()
    } else {
        let n = es.last().name@;
        known_names(es.drop_last()).push(n).push("Create"@ + n + "Input"@).push("Update"@ + n + "Input"@)
    }
}

/// Names that the schema-known emitter writes to the bindings: each entity
/// plus its Create/Update DTOs.
pub fn schema_known_names(entities: &Vec<EntityDef>) -> (r: Vec<String>)
    ensures
        r.deep_view() == known_names(entities@),
{
    let mut set: Vec<String> = Vec::new();
    let mut i: usize = 0;
    assert(entities@.subrange(0, 0) =~= Seq::<EntityDef>::empty());
    while i < entities.len()
        invariant
            i <= entities.len(),
            set.deep_view() == known_names(entities@.subrange(0, i as int)),
        decreases entities.len() - i,
    {
        let e = &entities[i];
        let ghost s = entities@.subrange(0, i + 1);
        assert(s.drop_last() =~= entities@.subrange(0, i as int));
        assert(s.last() == *e);
        let ghost before = set.deep_view();
        set.push(e.name.clone());
        let mut c = String::from_str("Create");
        c.append(e.name.as_str());
        c.append("Input");
        set.push(c);
        let mut u = String::from_str("Update");
        u.append(e.name.as_str());
        u.append("Input");
        set.push(u);
        assert(set.deep_view() =~= before.push(e.name@).push("Create"@ + e.name@ + "Input"@).push(
            "Update"@ + e.name@ + "Input"@,
        ));
        i = i + 1;
    }
    assert(entities@.subrange(0, i as int) =~= entities@);
    set
}

/// The TypeScript names of the parameter types in `ps`, added in turn.
pub open spec fn param_refs(ps: Seq<Param>, acc: Seq<Seq<char>>) -> Seq<Seq<char>>
    decreases ps.len(),
{
    if ps.len() == 0 {
        acc
    } else {
        add_ts_import(ts_type_spec(strip_ref_spec(ps.last().ty@)), param_refs(ps.drop_last(), acc))
    }
}

/// The TypeScript names of a function's return type and then its
/// parameter types, added in turn.
pub open spec fn fn_refs(f: ApiFn, acc: Seq<Seq<char>>) -> Seq<Seq<char>> {
    param_refs(f.params@, add_ts_import(ts_type_spec(f.return_type@), acc))
}

/// The function is emitted into the TypeScript client: its command name is
/// not empty and not skipped.
pub open spec fn ts_emitted(cfg: Config, module: Seq<char>, f: ApiFn) -> bool {
    let c = command_spec(cfg.naming, module, f);
    c.len() > 0 && !cfg.ts_skip_commands.deep_view().contains(c)
}

/// The TypeScript names referenced by the emitted functions in `fs`.
pub open spec fn fns_refs(cfg: Config, module: Seq<char>, fs: Seq<ApiFn>) -> Seq<Seq<char>>
    decreases fs.len(),
{
    if fs.len() == 0 {
        Seq::empty()
    } else {
        let acc = fns_refs(cfg, module, fs.drop_last());
        if ts_emitted(cfg, module, fs.last()) {
            fn_refs(fs.last(), acc)
        } else {
            acc
        }
    }
}

/// The TypeScript type names referenced by a single module's command
/// signatures: return types and parameter types of every command the
/// client emits, each once, in order of first reference.
pub fn module_referenced_ts_types(m: &ApiModule, config: &Config) -> (r: Vec<String>)
    ensures
        r.deep_view() == fns_refs(*config, m.name@, m.functions@),
{
    let mut import_types: Vec<String> = Vec::new();
    let mut i: usize = 0;
    assert(m.functions@.subrange(0, 0) =~= Seq::<ApiFn>::empty());
    while i < m.functions.len()
        invariant
            i <= m.functions.len(),
            import_types.deep_view() == fns_refs(*config, m.name@, m.functions@.subrange(0, i as int)),
        decreases m.functions.len() - i,
    {
        let f = &m.functions[i];
        let ghost s = m.functions@.subrange(0, i + 1);
        assert(s.drop_last() =~= m.functions@.subrange(0, i as int));
        assert(s.last() == *f);
        let cmd_name = command_name(m.name.as_str(), f, &config.naming);
        let cmd_chars = chars_of(cmd_name.as_str());
        if cmd_chars.len() != 0 && !vec_contains_str(&config.ts_skip_commands, cmd_name.as_str()) {
            let ts_ret = rust_type_to_ts(f.return_type.as_str());
            collect_ts_import(ts_ret.as_str(), &mut import_types);
            let ghost start = import_types.deep_view();
            let mut j: usize = 0;
            assert(f.params@.subrange(0, 0) =~= Seq::<Param>::empty());
            while j < f.params.len()
                invariant
                    j <= f.params.len(),
                    import_types.deep_view() == param_refs(f.params@.subrange(0, j as int), start),
                decreases f.params.len() - j,
            {
                let p = &f.params[j];
                let ghost ps = f.params@.subrange(0, j + 1);
                assert(ps.drop_last() =~= f.params@.subrange(0, j as int));
                assert(ps.last() == *p);
                let ty = extract_input_type(p.ty.as_str());
                let ts_ty = rust_type_to_ts(ty.as_str());
                collect_ts_import(ts_ty.as_str(), &mut import_types);
                j = j + 1;
            }
            assert(f.params@.subrange(0, j as int) =~= f.params@);
        }
        i = i + 1;
    }
    assert(m.functions@.subrange(0, i as int) =~= m.functions@);
    import_types
}

/// The names referenced by every module, concatenated in module order.
pub open spec fn modules_refs(cfg: Config, ms: Seq<ApiModule>) -> Seq<Seq<char>>
    decreases ms.len(),
{
    if ms.len() == 0 {
        Seq::empty()
    } else {
        modules_refs(cfg, ms.drop_last()) + fns_refs(cfg, ms.last().name@, ms.last().functions@)
    }
}

/// `r` is sorted, holds no name twice, and holds exactly the names of `src`.
pub open spec fn is_sorted_set_of(r: Seq<Seq<char>>, src: Seq<Seq<char>>) -> bool {
    &&& forall|i: int, j: int| 0 <= i < j < r.len() ==> #[trigger] crate::order::lex_le(r[i], r[j])
    &&& distinct_strings(r)
    &&& forall|x: Seq<char>| r.contains(x) <==> src.contains(x)
}

/// Collect every TypeScript type name referenced by the generated client
/// surface (return and parameter types of every emitted command), sorted
/// and without repeats.
pub fn referenced_ts_types(modules: &Vec<ApiModule>, config: &Config) -> (r: Vec<String>)
    ensures
        is_sorted_set_of(r.deep_view(), modules_refs(*config, modules@)),
        r.deep_view() == sorted_set(modules_refs(*config, modules@)),
{
    let mut import_types: Vec<String> = Vec::new();
    let mut i: usize = 0;
    assert(modules@.subrange(0, 0) =~= Seq::<ApiModule>::empty());
    while i < modules.len()
        invariant
            i <= modules.len(),
            import_types.deep_view() == modules_refs(*config, modules@.subrange(0, i as int)),
        decreases modules.len() - i,
    {
        let m = &modules[i];
        let ghost s = modules@.subrange(0, i + 1);
        assert(s.drop_last() =~= modules@.subrange(0, i as int));
        assert(s.last() == *m);
        let more = module_referenced_ts_types(m, config);
        let ghost before = import_types.deep_view();
        let mut j: usize = 0;
        while j < more.len()
            invariant
                j <= more.len(),
                import_types.deep_view() == before + more.deep_view().subrange(0, j as int),
            decreases more.len() - j,
        {
            let ghost prev = import_types.deep_view();
            import_types.push(more[j].clone());
            assert(import_types.deep_view() =~= prev.push(more.deep_view()[j as int]));
            assert(more.deep_view().subrange(0, j + 1) =~= more.deep_view().subrange(0, j as int).push(
                more.deep_view()[j as int],
            ));
            j = j + 1;
        }
        assert(more.deep_view().subrange(0, j as int) =~= more.deep_view());
        i = i + 1;
    }
    assert(modules@.subrange(0, i as int) =~= modules@);
    let ghost all = import_types.deep_view();
    sort_strings(&mut import_types);
    proof {
        assert forall|x: Seq<char>| import_types.deep_view().contains(x) <==> all.contains(x) by {
            assert(import_types.deep_view().to_multiset().count(x) == all.to_multiset().count(x));
            broadcast use vstd::seq_lib::group_to_multiset_ensures;

        }
    }
    let r = dedup_sorted(&import_types);
    proof {
        assert forall|a: int, b: int| 0 <= a < b < r.deep_view().len() implies #[trigger] crate::order::lex_le(
            r.deep_view()[a],
            r.deep_view()[b],
        ) by {
            assert(crate::order::lex_le(r@[a]@, r@[b]@));
        }
    }
    r
}

/// The names of `names` neither known nor already in `acc`, appended in
/// order to `acc`.
pub open spec fn add_unknown(names: Seq<Seq<char>>, known: Seq<Seq<char>>, acc: Seq<Seq<char>>) -> Seq<Seq<char>>
    decreases names.len(),
{
    if names.len() == 0 {
        acc
    } else {
        let a = add_unknown(names.drop_last(), known, acc);
        let n = names.last();
        if known.contains(n) || a.contains(n) {
            a
        } else {
            a.push(n)
        }
    }
}

/// The long-tail roots, given the sorted referenced names: the referenced
/// names, then the entity-field idents, each once, leaving out what the
/// schema-known emitter writes.
pub open spec fn long_tail_spec(refs: Seq<Seq<char>>, es: Seq<EntityDef>) -> Seq<Seq<char>> {
    add_unknown(entity_idents(es), known_names(es), add_unknown(refs, known_names(es), Seq::empty()))
}

fn add_unknown_exec(names: &Vec<String>, known: &Vec<String>, merged: &mut Vec<String>)
    ensures
        final(merged).deep_view() == add_unknown(names.deep_view(), known.deep_view(), old(merged).deep_view()),
{
    let ghost start = merged.deep_view();
    let mut i: usize = 0;
    assert(names.deep_view().subrange(0, 0) =~= Seq::<Seq<char>>::empty());
    while i < names.len()
        invariant
            i <= names.len(),
            merged.deep_view() == add_unknown(names.deep_view().subrange(0, i as int), known.deep_view(), start),
        decreases names.len() - i,
    {
        let ghost s = names.deep_view().subrange(0, i + 1);
        assert(s.drop_last() =~= names.deep_view().subrange(0, i as int));
        assert(s.last() == names.deep_view()[i as int]);
        let name = &names[i];
        if !vec_contains_str(known, name.as_str()) && !vec_contains_str(merged, name.as_str()) {
            let ghost before = merged.deep_view();
            merged.push(name.clone());
            assert(merged.deep_view() =~= before.push(name@));
        }
        i = i + 1;
    }
    assert(names.deep_view().subrange(0, i as int) =~= names.deep_view());
}

/// Referenced types that the schema-known emission does not cover: the
/// long-tail root set. The referenced names of the API surface come first
/// (sorted), then the user idents of entity fields; a name the schema-known
/// emitter writes, or one already taken, is left out.
pub fn long_tail(modules: &Vec<ApiModule>, config: &Config, entities: &Vec<EntityDef>) -> (r: Vec<String>)
    ensures
        r.deep_view() == long_tail_spec(sorted_set(modules_refs(*config, modules@)), entities@),
        is_sorted_set_of(sorted_set(modules_refs(*config, modules@)), modules_refs(*config, modules@)),
{
    let known = schema_known_names(entities);
    let refs = referenced_ts_types(modules, config);
    let mut merged: Vec<String> = Vec::new();
    assert(merged.deep_view() =~= Seq::<Seq<char>>::empty());
    add_unknown_exec(&refs, &known, &mut merged);
    let fields = entity_field_type_names(entities);
    add_unknown_exec(&fields, &known, &mut merged);
    assert(merged.deep_view() == long_tail_spec(refs.deep_view(), entities@));
    merged
}

// ─── Laws ───────────────────────────────────────────────────────────────────

/// What [`add_unknown`] keeps, adds and leaves out.
pub proof fn lemma_add_unknown(names: Seq<Seq<char>>, known: Seq<Seq<char>>, acc: Seq<Seq<char>>)
    ensures
        forall|x: Seq<char>|
            #[trigger] add_unknown(names, known, acc).contains(x) ==> acc.contains(x) || (names.contains(x)
                && !known.contains(x)),
        forall|x: Seq<char>|
            names.contains(x) && !known.contains(x) ==> #[trigger] add_unknown(names, known, acc).contains(x),
        forall|x: Seq<char>| acc.contains(x) ==> #[trigger] add_unknown(names, known, acc).contains(x),
        distinct_strings(acc) ==> distinct_strings(add_unknown(names, known, acc)),
    decreases names.len(),
{
    if names.len() > 0 {
        let init = names.drop_last();
        let a = add_unknown(init, known, acc);
        let n = names.last();
        lemma_add_unknown(init, known, acc);
        let r = add_unknown(names, known, acc);
        assert forall|x: Seq<char>| #[trigger] r.contains(x) implies acc.contains(x) || (names.contains(x)
            && !known.contains(x)) by {
            if a.contains(x) {
                if !acc.contains(x) {
                    let k = choose|k: int| 0 <= k < init.len() && init[k] == x;
                    assert(names[k] == x);
                }
            } else {
                assert(x == n);
                assert(names[names.len() - 1] == x);
            }
        }
        assert forall|x: Seq<char>| names.contains(x) && !known.contains(x) implies #[trigger] r.contains(x) by {
            let k = choose|k: int| 0 <= k < names.len() && names[k] == x;
            if k < names.len() - 1 {
                assert(init[k] == x);
                assert(a.contains(x));
            } else {
                if !a.contains(x) {
                    assert(r[r.len() - 1] == x);
                }
            }
            if a.contains(x) {
                let q = choose|q: int| 0 <= q < a.len() && a[q] == x;
                assert(r[q] == x);
            }
        }
        assert forall|x: Seq<char>| acc.contains(x) implies #[trigger] r.contains(x) by {
            assert(a.contains(x));
            let q = choose|q: int| 0 <= q < a.len() && a[q] == x;
            assert(r[q] == x);
        }
    }
}

/// The long-tail roots are exactly the referenced names and the entity
/// field idents that the schema-known emitter does not write, each once.
pub proof fn law_long_tail_roots(refs: Seq<Seq<char>>, src: Seq<Seq<char>>, es: Seq<EntityDef>)
    requires
        is_sorted_set_of(refs, src),
    ensures
        forall|x: Seq<char>|
            #[trigger] long_tail_spec(refs, es).contains(x) <==> ((src.contains(x) || entity_idents(es).contains(x))
                && !known_names(es).contains(x)),
        distinct_strings(long_tail_spec(refs, es)),
{
    let known = known_names(es);
    let first = add_unknown(refs, known, Seq::empty());
    lemma_add_unknown(refs, known, Seq::empty());
    lemma_add_unknown(entity_idents(es), known, first);
    assert(distinct_strings(Seq::<Seq<char>>::empty()));
}

} // verus!
