//! The store's update and conversion code for an entity: the
//! `{Entity}Update` patch struct, its `apply()` method, and the `From`
//! conversions from the create and update input DTOs.

use vstd::prelude::*;

use crate::naming::{snake_spec, to_snake_case};
use crate::schema::model::{EntityDef, FieldDef, FieldRole, FieldType, RelationKind};
use crate::text::{join, str_eq};

verus! {

// ─── Field predicates ───────────────────────────────────────────────────────

/// A persistence-only field name (`wikilinks`, `source_file`).
pub open spec fn is_persistence_only(name: Seq<char>) -> bool {
    name == "wikilinks"@ || name == "source_file"@
}

/// The field appears in the update struct: not the id, not skipped, not
/// persistence-only.
pub open spec fn is_updatable(f: FieldDef) -> bool {
    !(f.role is Id) && !(f.role is Skip) && !is_persistence_only(f.name@)
}

/// The field appears in the create conversion: not skipped, not
/// persistence-only.
pub open spec fn is_creatable(f: FieldDef) -> bool {
    !(f.role is Skip) && !is_persistence_only(f.name@)
}

/// A `has_many` or `many_to_many` relation.
pub open spec fn rel_vec_spec(f: FieldDef) -> bool {
    match f.role {
        FieldRole::Relation(info) => info.kind == RelationKind::HasMany || info.kind == RelationKind::ManyToMany,
        _ => false,
    }
}

/// A `belongs_to` relation held in an `Option<String>`.
pub open spec fn rel_opt_string_spec(f: FieldDef) -> bool {
    match f.role {
        FieldRole::Relation(info) => info.kind == RelationKind::BelongsTo && f.field_type is OptionString,
        _ => false,
    }
}

/// A `belongs_to` relation held in a `String`.
pub open spec fn rel_string_spec(f: FieldDef) -> bool {
    match f.role {
        FieldRole::Relation(info) => info.kind == RelationKind::BelongsTo && f.field_type is String,
        _ => false,
    }
}

fn is_persistence_only_name(name: &str) -> (b: bool)
    ensures
        b == is_persistence_only(name@),
{
    str_eq(name, "wikilinks") || str_eq(name, "source_file")
}

/// Whether the field appears in the update struct.
pub fn updatable(f: &FieldDef) -> (b: bool)
    ensures
        b == is_updatable(*f),
{
    let role_ok = match f.role {
        FieldRole::Id | FieldRole::Skip => false,
        _ => true,
    };
    role_ok && !is_persistence_only_name(f.name.as_str())
}

/// Whether the field appears in the create conversion.
pub fn creatable(f: &FieldDef) -> (b: bool)
    ensures
        b == is_creatable(*f),
{
    let role_ok = match f.role {
        FieldRole::Skip => false,
        _ => true,
    };
    role_ok && !is_persistence_only_name(f.name.as_str())
}

/// Check if a field is a relation-typed Vec (has_many or many_to_many).
pub fn is_relation_vec(field: &FieldDef) -> (b: bool)
    ensures
        b == rel_vec_spec(*field),
{
    match &field.role {
        FieldRole::Relation(info) => match info.kind {
            RelationKind::HasMany | RelationKind::ManyToMany => true,
            _ => false,
        },
        _ => false,
    }
}

/// Check if a field is a `belongs_to` relation with `Option<String>` type.
pub fn is_relation_opt_string(field: &FieldDef) -> (b: bool)
    ensures
        b == rel_opt_string_spec(*field),
{
    match &field.role {
        FieldRole::Relation(info) => match (info.kind, &field.field_type) {
            (RelationKind::BelongsTo, FieldType::OptionString) => true,
            _ => false,
        },
        _ => false,
    }
}

/// Check if a field is a `belongs_to` relation with plain `String` type.
pub fn is_relation_string(field: &FieldDef) -> (b: bool)
    ensures
        b == rel_string_spec(*field),
{
    match &field.role {
        FieldRole::Relation(info) => match (info.kind, &field.field_type) {
            (RelationKind::BelongsTo, FieldType::String) => true,
            _ => false,
        },
        _ => false,
    }
}

// ─── Types ──────────────────────────────────────────────────────────────────

/// A primitive Rust type name, left unqualified.
pub open spec fn is_primitive(t: Seq<char>) -> bool {
    ||| t == "u8"@
    ||| t == "u16"@
    ||| t == "u32"@
    ||| t == "u64"@
    ||| t == "u128"@
    ||| t == "usize"@
    ||| t == "i8"@
    ||| t == "i16"@
    ||| t == "i32"@
    ||| t == "i64"@
    ||| t == "i128"@
    ||| t == "isize"@
    ||| t == "f32"@
    ||| t == "f64"@
    ||| t == "bool"@
    ||| t == "char"@
    ||| t == "String"@
}

/// A type qualified with `crate::schema::` unless it is a primitive.
pub open spec fn qualify_type_spec(t: Seq<char>) -> Seq<char> {
    if is_primitive(t) {
        t
    } else {
        "crate::schema::"@ + t
    }
}

/// Qualify a type with `crate::schema::` unless it's a primitive.
pub fn qualify_type(t: &str) -> (r: String)
    ensures
        r@ == qualify_type_spec(t@),
{
    let prim = str_eq(t, "u8") || str_eq(t, "u16") || str_eq(t, "u32") || str_eq(t, "u64") || str_eq(t, "u128")
        || str_eq(t, "usize") || str_eq(t, "i8") || str_eq(t, "i16") || str_eq(t, "i32") || str_eq(t, "i64")
        || str_eq(t, "i128") || str_eq(t, "isize") || str_eq(t, "f32") || str_eq(t, "f64") || str_eq(t, "bool")
        || str_eq(t, "char") || str_eq(t, "String");
    if prim {
        String::from_str(t)
    } else {
        let mut r = String::from_str("crate::schema::");
        r.append(t);
        r
    }
}

/// The type of a field in the update struct: `T` becomes `Option<T>`, and
/// an `Option<T>` becomes `Option<Option<T>>` so that a value can be
/// cleared.
pub open spec fn update_type_spec(t: FieldType) -> Seq<char> {
    match t {
        FieldType::String => "Option<String>"@,
        FieldType::OptionString => "Option<Option<String>>"@,
        FieldType::OptionEnum(inner) => "Option<Option<"@ + qualify_type_spec(inner@) + ">>"@,
        FieldType::VecString => "Option<Vec<String>>"@,
        FieldType::VecStruct(inner) => "Option<Vec<crate::schema::"@ + inner@ + ">>"@,
        FieldType::I32 => "Option<i32>"@,
        FieldType::OptionI32 => "Option<Option<i32>>"@,
        FieldType::I64 => "Option<i64>"@,
        FieldType::OptionI64 => "Option<Option<i64>>"@,
        FieldType::F32 => "Option<f32>"@,
        FieldType::OptionF32 => "Option<Option<f32>>"@,
        FieldType::F64 => "Option<f64>"@,
        FieldType::OptionF64 => "Option<Option<f64>>"@,
        FieldType::Bool => "Option<bool>"@,
        FieldType::OptionBool => "Option<Option<bool>>"@,
        FieldType::Other(ty) => "Option<"@ + qualify_type_spec(ty@) + ">"@,
    }
}

/// An update field wraps the entity field's own Rust type in one more
/// `Option`: `None` leaves the field alone, `Some(v)` sets it to `v`. So a
/// field written `T` becomes `Option<T>`, and an optional field
/// `Option<T>` becomes `Option<Option<T>>`, which can set it back to
/// `None`; an enum field keeps that double `Option` too.
pub proof fn law_update_type_wraps_field_type(ft: FieldType)
    ensures
        crate::schema::model::is_builtin_type(ft) ==> update_type_spec(ft) == "Option<"@
            + crate::docs::rust_type_spec(ft) + ">"@,
        crate::text::starts_with(crate::docs::rust_type_spec(ft), "Option<"@) && !(ft is Other)
            ==> crate::text::starts_with(update_type_spec(ft), "Option<Option<"@),
{
    reveal_strlit("Option<");
    reveal_strlit(">");
    reveal_strlit(">>");
    reveal_strlit("Option<Option<");
    reveal_strlit("String");
    reveal_strlit("Option<String>");
    reveal_strlit("Option<Option<String>>");
    reveal_strlit("Vec<String>");
    reveal_strlit("Option<Vec<String>>");
    reveal_strlit("Vec<");
    reveal_strlit("Option<Vec<crate::schema::");
    reveal_strlit("i32");
    reveal_strlit("Option<i32>");
    reveal_strlit("Option<Option<i32>>");
    reveal_strlit("i64");
    reveal_strlit("Option<i64>");
    reveal_strlit("Option<Option<i64>>");
    reveal_strlit("f32");
    reveal_strlit("Option<f32>");
    reveal_strlit("Option<Option<f32>>");
    reveal_strlit("f64");
    reveal_strlit("Option<f64>");
    reveal_strlit("Option<Option<f64>>");
    reveal_strlit("bool");
    reveal_strlit("Option<bool>");
    reveal_strlit("Option<Option<bool>>");
    let u = update_type_spec(ft);
    let r = crate::docs::rust_type_spec(ft);
    match ft {
        FieldType::OptionEnum(n) => {
            assert(u.subrange(0, 14) =~= "Option<Option<"@);
        },
        FieldType::VecStruct(n) => {
            assert(r.subrange(0, 4) =~= "Vec<"@);
            if r.len() >= 7 {
                assert(r[0] != "Option<"@[0]);
            }
        },
        FieldType::Other(_) => {},
        _ => {
            assert(u =~= "Option<"@ + r + ">"@);
            if crate::text::starts_with(r, "Option<"@) {
                assert(r.subrange(0, 7)[0] == r[0]);
                if ft is VecString {
                    assert(r[0] == 'V');
                }
                assert(u.subrange(0, 14) =~= "Option<Option<"@);
            }
        },
    }
}

/// Convert a field's schema type into its update struct type.
pub fn field_to_update_type(field: &FieldDef) -> (r: String)
    ensures
        r@ == update_type_spec(field.field_type),
{
    match &field.field_type {
        FieldType::String => String::from_str("Option<String>"),
        FieldType::OptionString => String::from_str("Option<Option<String>>"),
        FieldType::OptionEnum(inner) => {
            let mut r = String::from_str("Option<Option<");
            let q = qualify_type(inner.as_str());
            r.append(q.as_str());
            r.append(">>");
            r
        },
        FieldType::VecString => String::from_str("Option<Vec<String>>"),
        FieldType::VecStruct(inner) => {
            let mut r = String::from_str("Option<Vec<crate::schema::");
            r.append(inner.as_str());
            r.append(">>");
            r
        },
        FieldType::I32 => String::from_str("Option<i32>"),
        FieldType::OptionI32 => String::from_str("Option<Option<i32>>"),
        FieldType::I64 => String::from_str("Option<i64>"),
        FieldType::OptionI64 => String::from_str("Option<Option<i64>>"),
        FieldType::F32 => String::from_str("Option<f32>"),
        FieldType::OptionF32 => String::from_str("Option<Option<f32>>"),
        FieldType::F64 => String::from_str("Option<f64>"),
        FieldType::OptionF64 => String::from_str("Option<Option<f64>>"),
        FieldType::Bool => String::from_str("Option<bool>"),
        FieldType::OptionBool => String::from_str("Option<Option<bool>>"),
        FieldType::Other(ty) => {
            let mut r = String::from_str("Option<");
            let q = qualify_type(ty.as_str());
            r.append(q.as_str());
            r.append(">");
            r
        },
    }
}

/// The updatable fields of an entity, in order.
pub open spec fn updatable_spec(fs: Seq<FieldDef>) -> Seq<FieldDef>
    decreases fs.len(),
{
    if fs.len() == 0 {
        Seq::empty()
    } else if is_updatable(fs.last()) {
        updatable_spec(fs.drop_last()).push(fs.last())
    } else {
        updatable_spec(fs.drop_last())
    }
}

/// Returns the fields that appear in the update struct, in order: all but
/// the id, skipped fields, and persistence-only fields.
pub fn updatable_fields(entity: &EntityDef) -> (r: Vec<&FieldDef>)
    ensures
        r@.len() <= entity.fields@.len(),
        forall|i: int| 0 <= i < r@.len() ==> is_updatable(*#[trigger] r@[i]),
        Seq::new(r@.len(), |i: int| *r@[i]) == updatable_spec(entity.fields@),
{
    let mut r: Vec<&FieldDef> = Vec::new();
    let mut i: usize = 0;
    while i < entity.fields.len()
        invariant
            i <= entity.fields.len(),
            r@.len() <= i,
            forall|k: int| 0 <= k < r@.len() ==> is_updatable(*#[trigger] r@[k]),
            Seq::new(r@.len(), |k: int| *r@[k]) == updatable_spec(entity.fields@.subrange(0, i as int)),
        decreases entity.fields.len() - i,
    {
        let f = &entity.fields[i];
        let ghost before = Seq::new(r@.len(), |k: int| *r@[k]);
        proof {
            let s = entity.fields@.subrange(0, i + 1);
            assert(s.drop_last() =~= entity.fields@.subrange(0, i as int));
            assert(s.last() == *f);
        }
        if updatable(f) {
            r.push(f);
            assert(Seq::new(r@.len(), |k: int| *r@[k]) =~= before.push(*f));
        } else {
            assert(Seq::new(r@.len(), |k: int| *r@[k]) =~= before);
        }
        i = i + 1;
    }
    assert(entity.fields@.subrange(0, i as int) =~= entity.fields@);
    r
}

// ─── Update struct ──────────────────────────────────────────────────────────

/// The field lines of the update struct.
pub open spec fn update_lines(fs: Seq<FieldDef>) -> Seq<char>
    decreases fs.len(),
{
    if fs.len() == 0 {
        Seq::empty()
    } else {
        let f = fs.last();
        update_lines(fs.drop_last()) + if is_updatable(f) {
            "    pub "@ + f.name@ + ": "@ + update_type_spec(f.field_type) + ",\n"@
        } else {
            Seq::empty()
        }
    }
}

/// The `{Entity}Update` struct definition.
pub open spec fn update_struct_text(e: EntityDef) -> Seq<char> {
    "/// Partial update for a "@ + e.name@ + ". Only `Some` values are applied.\n"@
        + "#[derive(Debug, Clone, Default)]\n"@ + "pub struct "@ + e.name@ + "Update {\n"@ + update_lines(e.fields@)
        + "}\n\n"@
}

/// Generate the `{Entity}Update` struct definition: every updatable field,
/// wrapped in `Option`.
pub fn generate_update_struct(code: &mut String, entity: &EntityDef)
    ensures
        final(code)@ == old(code)@ + update_struct_text(*entity),
{
    let ghost start = code@;
    let name = entity.name.as_str();
    code.append("/// Partial update for a ");
    code.append(name);
    code.append(". Only `Some` values are applied.\n");
    code.append("#[derive(Debug, Clone, Default)]\n");
    code.append("pub struct ");
    code.append(name);
    code.append("Update {\n");
    let ghost head = code@;
    let mut i: usize = 0;
    assert(entity.fields@.subrange(0, 0) =~= Seq::<FieldDef>::empty());
    assert(head =~= head + update_lines(entity.fields@.subrange(0, 0)));
    while i < entity.fields.len()
        invariant
            i <= entity.fields.len(),
            code@ == head + update_lines(entity.fields@.subrange(0, i as int)),
        decreases entity.fields.len() - i,
    {
        let f = &entity.fields[i];
        let ghost s = entity.fields@.subrange(0, i + 1);
        assert(s.drop_last() =~= entity.fields@.subrange(0, i as int));
        assert(s.last() == *f);
        if updatable(f) {
            let t = field_to_update_type(f);
            code.append("    pub ");
            code.append(f.name.as_str());
            code.append(": ");
            code.append(t.as_str());
            code.append(",\n");
        }
        i = i + 1;
    }
    assert(entity.fields@.subrange(0, i as int) =~= entity.fields@);
    code.append("}\n\n");
}

// ─── apply() ────────────────────────────────────────────────────────────────

/// The per-field statements of `apply()`.
pub open spec fn apply_lines(fs: Seq<FieldDef>, snake: Seq<char>) -> Seq<char>
    decreases fs.len(),
{
    if fs.len() == 0 {
        Seq::empty()
    } else {
        let f = fs.last();
        apply_lines(fs.drop_last(), snake) + if is_updatable(f) {
            "        if let Some("@ + f.name@ + ") = &self."@ + f.name@ + " {\n"@ + "            "@ + snake + "."@
                + f.name@ + ".clone_from("@ + f.name@ + ");\n"@ + "        }\n"@
        } else {
            Seq::empty()
        }
    }
}

/// The `apply()` method on `{Entity}Update`.
pub open spec fn apply_text(e: EntityDef) -> Seq<char> {
    let snake = snake_spec(e.name@);
    "impl "@ + e.name@ + "Update {\n"@ + "    fn apply(&self, "@ + snake + ": &mut "@ + e.name@ + ") {\n"@
        + apply_lines(e.fields@, snake) + "    }\n"@ + "}\n\n"@
}

/// Generate the `apply()` method on `{Entity}Update`: each `Some` field
/// replaces the entity's value.
pub fn generate_apply_method(code: &mut String, entity: &EntityDef)
    ensures
        final(code)@ == old(code)@ + apply_text(*entity),
{
    let name = entity.name.as_str();
    let snake = to_snake_case(name);
    code.append("impl ");
    code.append(name);
    code.append("Update {\n");
    code.append("    fn apply(&self, ");
    code.append(snake.as_str());
    code.append(": &mut ");
    code.append(name);
    code.append(") {\n");
    let ghost head = code@;
    let mut i: usize = 0;
    assert(entity.fields@.subrange(0, 0) =~= Seq::<FieldDef>::empty());
    assert(head =~= head + apply_lines(entity.fields@.subrange(0, 0), snake@));
    while i < entity.fields.len()
        invariant
            i <= entity.fields.len(),
            code@ == head + apply_lines(entity.fields@.subrange(0, i as int), snake@),
        decreases entity.fields.len() - i,
    {
        let f = &entity.fields[i];
        let ghost s = entity.fields@.subrange(0, i + 1);
        assert(s.drop_last() =~= entity.fields@.subrange(0, i as int));
        assert(s.last() == *f);
        if updatable(f) {
            let n = f.name.as_str();
            code.append("        if let Some(");
            code.append(n);
            code.append(") = &self.");
            code.append(n);
            code.append(" {\n");
            code.append("            ");
            code.append(snake.as_str());
            code.append(".");
            code.append(n);
            code.append(".clone_from(");
            code.append(n);
            code.append(");\n");
            code.append("        }\n");
        }
        i = i + 1;
    }
    assert(entity.fields@.subrange(0, i as int) =~= entity.fields@);
    code.append("    }\n");
    code.append("}\n\n");
}

// ─── From conversions ───────────────────────────────────────────────────────

/// The field takes part in the conversion: updatable fields for the update
/// conversion, creatable fields for the create conversion.
pub open spec fn in_conversion(f: FieldDef, create: bool) -> bool {
    if create {
        is_creatable(f)
    } else {
        is_updatable(f)
    }
}

/// Some field of the conversion is a `belongs_to` `String` relation.
pub open spec fn any_rel_string(fs: Seq<FieldDef>, create: bool) -> bool {
    exists|i: int| 0 <= i < fs.len() && in_conversion(fs[i], create) && #[trigger] rel_string_spec(fs[i])
}

/// Some field of the conversion is a `belongs_to` `Option<String>` relation.
pub open spec fn any_rel_opt(fs: Seq<FieldDef>, create: bool) -> bool {
    exists|i: int| 0 <= i < fs.len() && in_conversion(fs[i], create) && #[trigger] rel_opt_string_spec(fs[i])
}

/// Some field of the conversion is a relation list.
pub open spec fn any_rel_vec(fs: Seq<FieldDef>, create: bool) -> bool {
    exists|i: int| 0 <= i < fs.len() && in_conversion(fs[i], create) && #[trigger] rel_vec_spec(fs[i])
}

/// The wikilink helpers a conversion imports, in order.
pub open spec fn strip_imports(s: bool, o: bool, v: bool) -> Seq<Seq<char>> {
    (if s {
        seq!["strip_wikilink"@]
    } else {
        Seq::empty()
    }) + (if o {
        seq!["strip_wikilink_opt"@]
    } else {
        Seq::empty()
    }) + (if v {
        seq!["strip_wikilinks_vec"@]
    } else {
        Seq::empty()
    })
}

/// The `use` line of a conversion's wikilink helpers, when it needs any.
pub open spec fn import_text(fs: Seq<FieldDef>, create: bool) -> Seq<char> {
    let s = any_rel_string(fs, create);
    let o = any_rel_opt(fs, create);
    let v = any_rel_vec(fs, create);
    if s || o || v {
        "        use crate::persistence::fs_markdown::parser::ontology::{"@ + join(strip_imports(s, o, v), ", "@)
            + "};\n\n"@
    } else {
        Seq::empty()
    }
}

/// The field initializer of a conversion.
pub open spec fn conv_line(f: FieldDef, create: bool) -> Seq<char> {
    let n = f.name@;
    if rel_vec_spec(f) {
        if create {
            "            "@ + n + ": strip_wikilinks_vec(input."@ + n + "),\n"@
        } else {
            "            "@ + n + ": input."@ + n + ".map(strip_wikilinks_vec),\n"@
        }
    } else if rel_opt_string_spec(f) {
        if create {
            "            "@ + n + ": strip_wikilink_opt(input."@ + n + "),\n"@
        } else {
            "            "@ + n + ": input."@ + n + ".map(strip_wikilink_opt),\n"@
        }
    } else if rel_string_spec(f) {
        if create {
            "            "@ + n + ": strip_wikilink(&input."@ + n + "),\n"@
        } else {
            "            "@ + n + ": input."@ + n + ".map(|v| strip_wikilink(&v)),\n"@
        }
    } else {
        "            "@ + n + ": input."@ + n + ",\n"@
    }
}

/// The field initializers of a conversion.
pub open spec fn conv_lines(fs: Seq<FieldDef>, create: bool) -> Seq<char>
    decreases fs.len(),
{
    if fs.len() == 0 {
        Seq::empty()
    } else {
        conv_lines(fs.drop_last(), create) + if in_conversion(fs.last(), create) {
            conv_line(fs.last(), create)
        } else {
            Seq::empty()
        }
    }
}

/// `impl From<crate::schema::Update{E}Input> for {E}Update`.
pub open spec fn from_update_text(e: EntityDef) -> Seq<char> {
    "impl From<crate::schema::Update"@ + e.name@ + "Input> for "@ + e.name@ + "Update {\n"@
        + "    fn from(input: crate::schema::Update"@ + e.name@ + "Input) -> Self {\n"@ + import_text(e.fields@, false)
        + "        Self {\n"@ + conv_lines(e.fields@, false) + "        }\n"@ + "    }\n"@ + "}\n\n"@
}

/// `impl From<crate::schema::Create{E}Input> for {E}`.
pub open spec fn from_create_text(e: EntityDef) -> Seq<char> {
    "impl From<crate::schema::Create"@ + e.name@ + "Input> for "@ + e.name@ + " {\n"@
        + "    fn from(input: crate::schema::Create"@ + e.name@ + "Input) -> Self {\n"@ + import_text(e.fields@, true)
        + "        Self {\n"@ + conv_lines(e.fields@, true) + "        }\n"@ + "    }\n"@ + "}\n\n"@
}

fn in_conv(f: &FieldDef, create: bool) -> (b: bool)
    ensures
        b == in_conversion(*f, create),
{
    if create {
        creatable(f)
    } else {
        updatable(f)
    }
}

fn strip_flags(fs: &Vec<FieldDef>, create: bool) -> (r: (bool, bool, bool))
    ensures
        r.0 == any_rel_string(fs@, create),
        r.1 == any_rel_opt(fs@, create),
        r.2 == any_rel_vec(fs@, create),
{
    let mut s = false;
    let mut o = false;
    let mut v = false;
    let mut i: usize = 0;
    while i < fs.len()
        invariant
            i <= fs.len(),
            s == exists|k: int| 0 <= k < i && in_conversion(fs@[k], create) && #[trigger] rel_string_spec(fs@[k]),
            o == exists|k: int| 0 <= k < i && in_conversion(fs@[k], create) && #[trigger] rel_opt_string_spec(fs@[k]),
            v == exists|k: int| 0 <= k < i && in_conversion(fs@[k], create) && #[trigger] rel_vec_spec(fs@[k]),
        decreases fs.len() - i,
    {
        let f = &fs[i];
        if in_conv(f, create) {
            if is_relation_string(f) {
                s = true;
            }
            if is_relation_opt_string(f) {
                o = true;
            }
            if is_relation_vec(f) {
                v = true;
            }
        }
        i = i + 1;
    }
    (s, o, v)
}

fn import_line(code: &mut String, fs: &Vec<FieldDef>, create: bool)
    ensures
        final(code)@ == old(code)@ + import_text(fs@, create),
{
    let (s, o, v) = strip_flags(fs, create);
    if s || o || v {
        let ghost items = strip_imports(s, o, v);
        let mut list = String::new();
        let mut count: usize = 0;
        let ghost done: Seq<Seq<char>> = Seq::empty();
        if s {
            list.append("strip_wikilink");
            count = count + 1;
            proof {
                done = done.push("strip_wikilink"@);
            }
        }
        proof {
            reveal_strlit(", ");
            assert(list@ == join(done, ", "@));
            assert(done.len() == count);
        }
        if o {
            if count > 0 {
                list.append(", ");
            }
            list.append("strip_wikilink_opt");
            proof {
                let d2 = done.push("strip_wikilink_opt"@);
                assert(d2.drop_last() =~= done);
                if count == 0 {
                    assert(done.len() == 0);
                    assert(list@ =~= join(d2, ", "@));
                }
                done = d2;
            }
            count = count + 1;
        }
        assert(list@ == join(done, ", "@));
        assert(done.len() == count);
        if v {
            if count > 0 {
                list.append(", ");
            }
            list.append("strip_wikilinks_vec");
            proof {
                let d2 = done.push("strip_wikilinks_vec"@);
                assert(d2.drop_last() =~= done);
                if count == 0 {
                    assert(done.len() == 0);
                    assert(list@ =~= join(d2, ", "@));
                }
                done = d2;
            }
        }
        assert(list@ == join(done, ", "@));
        assert(done =~= items);
        code.append("        use crate::persistence::fs_markdown::parser::ontology::{");
        code.append(list.as_str());
        code.append("};\n\n");
    }
}

fn conv_body(code: &mut String, fs: &Vec<FieldDef>, create: bool)
    ensures
        final(code)@ == old(code)@ + conv_lines(fs@, create),
{
    let ghost head = code@;
    let mut i: usize = 0;
    assert(fs@.subrange(0, 0) =~= Seq::<FieldDef>::empty());
    assert(head =~= head + conv_lines(fs@.subrange(0, 0), create));
    while i < fs.len()
        invariant
            i <= fs.len(),
            head == old(code)@,
            code@ == head + conv_lines(fs@.subrange(0, i as int), create),
        decreases fs.len() - i,
    {
        let f = &fs[i];
        let ghost s = fs@.subrange(0, i + 1);
        assert(s.drop_last() =~= fs@.subrange(0, i as int));
        assert(s.last() == *f);
        if in_conv(f, create) {
            let n = f.name.as_str();
            code.append("            ");
            code.append(n);
            if is_relation_vec(f) {
                if create {
                    code.append(": strip_wikilinks_vec(input.");
                    code.append(n);
                    code.append("),\n");
                } else {
                    code.append(": input.");
                    code.append(n);
                    code.append(".map(strip_wikilinks_vec),\n");
                }
            } else if is_relation_opt_string(f) {
                if create {
                    code.append(": strip_wikilink_opt(input.");
                    code.append(n);
                    code.append("),\n");
                } else {
                    code.append(": input.");
                    code.append(n);
                    code.append(".map(strip_wikilink_opt),\n");
                }
            } else if is_relation_string(f) {
                if create {
                    code.append(": strip_wikilink(&input.");
                    code.append(n);
                    code.append("),\n");
                } else {
                    code.append(": input.");
                    code.append(n);
                    code.append(".map(|v| strip_wikilink(&v)),\n");
                }
            } else {
                code.append(": input.");
                code.append(n);
                code.append(",\n");
            }
        }
        i = i + 1;
    }
    assert(fs@.subrange(0, i as int) =~= fs@);
}

/// Generate `From<Update{Entity}Input> for {Entity}Update`: relation
/// inputs have their wikilinks stripped.
pub fn generate_from_update_input(code: &mut String, entity: &EntityDef)
    ensures
        final(code)@ == old(code)@ + from_update_text(*entity),
{
    let name = entity.name.as_str();
    code.append("impl From<crate::schema::Update");
    code.append(name);
    code.append("Input> for ");
    code.append(name);
    code.append("Update {\n");
    code.append("    fn from(input: crate::schema::Update");
    code.append(name);
    code.append("Input) -> Self {\n");
    import_line(code, &entity.fields, false);
    code.append("        Self {\n");
    conv_body(code, &entity.fields, false);
    code.append("        }\n");
    code.append("    }\n");
    code.append("}\n\n");
}

/// Generate `From<Create{Entity}Input> for {Entity}`: relation inputs have
/// their wikilinks stripped.
pub fn generate_from_create_input(code: &mut String, entity: &EntityDef)
    ensures
        final(code)@ == old(code)@ + from_create_text(*entity),
{
    let name = entity.name.as_str();
    code.append("impl From<crate::schema::Create");
    code.append(name);
    code.append("Input> for ");
    code.append(name);
    code.append(" {\n");
    code.append("    fn from(input: crate::schema::Create");
    code.append(name);
    code.append("Input) -> Self {\n");
    import_line(code, &entity.fields, true);
    code.append("        Self {\n");
    conv_body(code, &entity.fields, true);
    code.append("        }\n");
    code.append("    }\n");
    code.append("}\n\n");
}

} // verus!
