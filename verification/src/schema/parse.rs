//! The decisions of schema parsing: field type classification, relation
//! kinds, entity defaults, and identifier validation.

use vstd::prelude::*;

use crate::attrs::{path_is, path_is_ident, AttrInfo, AttrMeta, MetaItem};
use crate::naming::{snake_spec, to_snake_case};
use crate::schema::model::{EntityDef, FieldDef, FieldRole, FieldType, RelationInfo, RelationKind};
use crate::servers::parse::{GenericArg, PathArgs, PathSegment, TypeAst};
use crate::text::{chars_of, is_ascii_alnum, is_ascii_alpha, owned, str_eq};

verus! {

// ─── Identifier validation ──────────────────────────────────────────────────

/// `value` matches `[A-Za-z_][A-Za-z0-9_]*`.
pub open spec fn is_identifier(value: Seq<char>) -> bool {
    &&& value.len() > 0
    &&& (is_ascii_alpha(value[0]) || value[0] == '_')
    &&& forall|i: int| 1 <= i < value.len() ==> is_ascii_alnum(#[trigger] value[i]) || value[i] == '_'
}

/// The error for an identifier that fails validation.
pub open spec fn identifier_error(field: Seq<char>, value: Seq<char>) -> Seq<char> {
    if value.len() == 0 {
        "invalid "@ + field + "=``: must not be empty"@
    } else if !(is_ascii_alpha(value[0]) || value[0] == '_') {
        "invalid "@ + field + "=`"@ + value
            + "`: must match [A-Za-z_][A-Za-z0-9_]* (must start with letter or underscore)"@
    } else {
        "invalid "@ + field + "=`"@ + value
            + "`: must match [A-Za-z_][A-Za-z0-9_]* (only letters, digits, or underscore allowed)"@
    }
}

/// Validate that a user-supplied identifier conforms to
/// `[A-Za-z_][A-Za-z0-9_]*`.
///
/// Applied to `table`, `directory`, `type_name`, and `prefix` values that
/// flow into generated code (including SQL), to reject empty strings and
/// inputs containing characters outside the standard identifier alphabet.
pub fn validate_identifier(field: &str, value: &str) -> (r: Result<(), String>)
    ensures
        r is Ok <==> is_identifier(value@),
        r matches Err(e) ==> e@ == identifier_error(field@, value@),
{
    let v = chars_of(value);
    if v.len() == 0 {
        let mut e = String::from_str("invalid ");
        e.append(field);
        e.append("=``: must not be empty");
        return Err(e);
    }
    let first = v[0];
    let first_ok = ('A' <= first && first <= 'Z') || ('a' <= first && first <= 'z') || first == '_';
    if !first_ok {
        let mut e = String::from_str("invalid ");
        e.append(field);
        e.append("=`");
        e.append(value);
        e.append("`: must match [A-Za-z_][A-Za-z0-9_]* (must start with letter or underscore)");
        return Err(e);
    }
    let mut i: usize = 1;
    while i < v.len()
        invariant
            1 <= i <= v.len(),
            v@ == value@,
            is_ascii_alpha(value@[0]) || value@[0] == '_',
            forall|j: int| 1 <= j < i ==> is_ascii_alnum(#[trigger] v@[j]) || v@[j] == '_',
        decreases v.len() - i,
    {
        let c = v[i];
        let ok = ('A' <= c && c <= 'Z') || ('a' <= c && c <= 'z') || ('0' <= c && c <= '9') || c == '_';
        if !ok {
            let mut e = String::from_str("invalid ");
            e.append(field);
            e.append("=`");
            e.append(value);
            e.append("`: must match [A-Za-z_][A-Za-z0-9_]* (only letters, digits, or underscore allowed)");
            assert(!is_identifier(value@)) by {
                assert(!(is_ascii_alnum(value@[i as int]) || value@[i as int] == '_'));
            }
            return Err(e);
        }
        i = i + 1;
    }
    Ok(())
}

// ─── Relation kinds ─────────────────────────────────────────────────────────

/// The relation kind a `relation(...)` attribute names.
pub open spec fn relation_kind_spec(kind: Seq<char>) -> Option<RelationKind> {
    if kind == "belongs_to"@ {
        Some(RelationKind::BelongsTo)
    } else if kind == "has_many"@ {
        Some(RelationKind::HasMany)
    } else if kind == "many_to_many"@ {
        Some(RelationKind::ManyToMany)
    } else {
        None
    }
}

/// The relation kind named by a `relation(...)` attribute, or the error for
/// an unknown name.
pub fn relation_kind_from(kind: &str) -> (r: Result<RelationKind, String>)
    ensures
        match relation_kind_spec(kind@) {
            Some(k) => r == Ok::<RelationKind, String>(k),
            None => r matches Err(e) && e@ == "Unknown relation kind '"@ + kind@
                + "'. Expected belongs_to, has_many, or many_to_many"@,
        },
{
    if str_eq(kind, "belongs_to") {
        Ok(RelationKind::BelongsTo)
    } else if str_eq(kind, "has_many") {
        Ok(RelationKind::HasMany)
    } else if str_eq(kind, "many_to_many") {
        Ok(RelationKind::ManyToMany)
    } else {
        let mut e = String::from_str("Unknown relation kind '");
        e.append(kind);
        e.append("'. Expected belongs_to, has_many, or many_to_many");
        Err(e)
    }
}

// ─── Field type classification ──────────────────────────────────────────────

/// The last identifier of the path in the first type argument of `seg`.
pub open spec fn generic_arg_spec(seg: PathSegment) -> Option<Seq<char>> {
    match seg.args {
        PathArgs::AngleBracketed(args) => if args@.len() == 0 {
            None
        } else {
            match args@[0] {
                GenericArg::Type(TypeAst::Path(tp)) => if tp.segments@.len() == 0 {
                    None
                } else {
                    Some(tp.segments@.last().ident@)
                },
                _ => None,
            }
        },
        _ => None,
    }
}

/// The simplified field type of a Rust type; `rendered` is the type's
/// tokens, kept for types outside the simplified set.
pub open spec fn classify_type_spec(ty: TypeAst, rendered: Seq<char>) -> (FieldTypeView) {
    match ty {
        TypeAst::Path(tp) => if tp.segments@.len() == 0 {
            FieldTypeView::Other(rendered)
        } else {
            let n = tp.segments@.len();
            let last = tp.segments@.last();
            let id = last.ident@;
            if id == "String"@ && n == 1 {
                FieldTypeView::String
            } else if id == "i32"@ && n == 1 {
                FieldTypeView::I32
            } else if (id == "i64"@ || id == "u64"@) && n == 1 {
                FieldTypeView::I64
            } else if id == "bool"@ && n == 1 {
                FieldTypeView::Bool
            } else if id == "Option"@ {
                match generic_arg_spec(last) {
                    Some(inner) => if inner == "String"@ {
                        FieldTypeView::OptionString
                    } else if inner == "i32"@ {
                        FieldTypeView::OptionI32
                    } else if inner == "i64"@ || inner == "u64"@ {
                        FieldTypeView::OptionI64
                    } else if inner == "bool"@ {
                        FieldTypeView::OptionBool
                    } else {
                        FieldTypeView::OptionEnum(inner)
                    },
                    None => FieldTypeView::Other(rendered),
                }
            } else if id == "Vec"@ {
                match generic_arg_spec(last) {
                    Some(inner) => if inner == "String"@ {
                        FieldTypeView::VecString
                    } else {
                        FieldTypeView::VecStruct(inner)
                    },
                    None => FieldTypeView::Other(rendered),
                }
            } else {
                FieldTypeView::Other(rendered)
            }
        },
        _ => FieldTypeView::Other(rendered),
    }
}

/// [`FieldType`] with its names as character sequences.
pub enum FieldTypeView {
    String,
    OptionString,
    OptionEnum(Seq<char>),
    VecString,
    VecStruct(Seq<char>),
    I32,
    OptionI32,
    I64,
    OptionI64,
    F32,
    OptionF32,
    F64,
    OptionF64,
    Bool,
    OptionBool,
    Other(Seq<char>),
}

/// The view of a field type.
pub open spec fn field_type_view(t: FieldType) -> FieldTypeView {
    match t {
        FieldType::String => FieldTypeView::String,
        FieldType::OptionString => FieldTypeView::OptionString,
        FieldType::OptionEnum(n) => FieldTypeView::OptionEnum(n@),
        FieldType::VecString => FieldTypeView::VecString,
        FieldType::VecStruct(n) => FieldTypeView::VecStruct(n@),
        FieldType::I32 => FieldTypeView::I32,
        FieldType::OptionI32 => FieldTypeView::OptionI32,
        FieldType::I64 => FieldTypeView::I64,
        FieldType::OptionI64 => FieldTypeView::OptionI64,
        FieldType::F32 => FieldTypeView::F32,
        FieldType::OptionF32 => FieldTypeView::OptionF32,
        FieldType::F64 => FieldTypeView::F64,
        FieldType::OptionF64 => FieldTypeView::OptionF64,
        FieldType::Bool => FieldTypeView::Bool,
        FieldType::OptionBool => FieldTypeView::OptionBool,
        FieldType::Other(n) => FieldTypeView::Other(n@),
    }
}

/// Classifying a written type keeps the type: the simplified field type a
/// one-segment path `String`, `i32`, `i64` or `bool` classifies to is
/// written as that same Rust type (`u64` is widened to `i64`), and
/// `Option<T>` and `Vec<T>` classify to field types written `Option<T>` and
/// `Vec<T>` (`Option<u64>` to `Option<i64>`).
pub proof fn law_classify_keeps_rust_type(ty: TypeAst, rendered: Seq<char>, ft: FieldType, seg: PathSegment)
    requires
        field_type_view(ft) == classify_type_spec(ty, rendered),
        ty matches TypeAst::Path(tp) && tp.segments@ == seq![seg],
    ensures
        (seg.ident@ == "String"@ || seg.ident@ == "i32"@ || seg.ident@ == "i64"@ || seg.ident@ == "bool"@)
            ==> crate::docs::rust_type_spec(ft) == seg.ident@,
        seg.ident@ == "u64"@ ==> crate::docs::rust_type_spec(ft) == "i64"@,
        seg.ident@ == "Option"@ ==> match generic_arg_spec(seg) {
            Some(inner) => if inner == "u64"@ {
                crate::docs::rust_type_spec(ft) == "Option<i64>"@
            } else {
                crate::docs::rust_type_spec(ft) == "Option<"@ + inner + ">"@
            },
            None => ft is Other,
        },
        seg.ident@ == "Vec"@ ==> match generic_arg_spec(seg) {
            Some(inner) => crate::docs::rust_type_spec(ft) == "Vec<"@ + inner + ">"@,
            None => ft is Other,
        },
{
    reveal_strlit("String");
    reveal_strlit("i32");
    reveal_strlit("i64");
    reveal_strlit("u64");
    reveal_strlit("bool");
    reveal_strlit("Option");
    reveal_strlit("Vec");
    reveal_strlit("Option<");
    reveal_strlit("Vec<");
    reveal_strlit(">");
    reveal_strlit("Option<String>");
    reveal_strlit("Option<i32>");
    reveal_strlit("Option<i64>");
    reveal_strlit("Option<bool>");
    reveal_strlit("Vec<String>");
    let x = seg.ident@;
    assert(ty->Path_0.segments@.last() == seg);
    assert("String"@[0] != "Option"@[0]);
    assert("Vec"@[0] != "i32"@[0] && "Vec"@[0] != "i64"@[0] && "Vec"@[0] != "u64"@[0]);
    assert("u64"@[0] != "i32"@[0] && "u64"@[0] != "i64"@[0] && "i32"@[1] != "i64"@[1]);
    let c = classify_type_spec(ty, rendered);
    if x == "String"@ {
        assert(c == FieldTypeView::String);
    } else if x == "i32"@ {
        assert(c == FieldTypeView::I32);
    } else if x == "i64"@ || x == "u64"@ {
        assert(c == FieldTypeView::I64);
    } else if x == "bool"@ {
        assert(c == FieldTypeView::Bool);
    } else if x == "Option"@ {
        match generic_arg_spec(seg) {
            Some(inner) => {
                if inner == "String"@ {
                    assert("Option<"@ + inner + ">"@ =~= "Option<String>"@);
                } else if inner == "i32"@ {
                    assert("Option<"@ + inner + ">"@ =~= "Option<i32>"@);
                } else if inner == "i64"@ {
                    assert("Option<"@ + inner + ">"@ =~= "Option<i64>"@);
                } else if inner == "u64"@ {
                } else if inner == "bool"@ {
                    assert("Option<"@ + inner + ">"@ =~= "Option<bool>"@);
                } else {
                    assert(c == FieldTypeView::OptionEnum(inner));
                    match ft {
                        FieldType::OptionEnum(n) => assert(n@ == inner),
                        _ => assert(false),
                    }
                }
            },
            None => {
                assert(c == FieldTypeView::Other(rendered));
                assert(ft is Other);
            },
        }
    } else if x == "Vec"@ {
        match generic_arg_spec(seg) {
            Some(inner) => {
                if inner == "String"@ {
                    assert("Vec<"@ + inner + ">"@ =~= "Vec<String>"@);
                } else {
                    assert(c == FieldTypeView::VecStruct(inner));
                    match ft {
                        FieldType::VecStruct(n) => assert(n@ == inner),
                        _ => assert(false),
                    }
                }
            },
            None => {
                assert(c == FieldTypeView::Other(rendered));
                assert(ft is Other);
            },
        }
    }
}

/// Extract the single generic type argument from a path segment (e.g.,
/// `Option<String>` -> `"String"`).
pub fn extract_generic_arg(seg: &PathSegment) -> (r: Option<String>)
    ensures
        match generic_arg_spec(*seg) {
            Some(s) => r matches Some(x) && x@ == s,
            None => r is None,
        },
{
    match &seg.args {
        PathArgs::AngleBracketed(args) => {
            if args.len() == 0 {
                return None;
            }
            match &args[0] {
                GenericArg::Type(TypeAst::Path(tp)) => {
                    if tp.segments.len() == 0 {
                        None
                    } else {
                        Some(tp.segments[tp.segments.len() - 1].ident.clone())
                    }
                },
                _ => None,
            }
        },
        _ => None,
    }
}

/// Classify a Rust type into the simplified `FieldType`; `rendered` is the
/// type's tokens, used for `FieldType::Other`.
pub fn classify_type(ty: &TypeAst, rendered: &str) -> (r: FieldType)
    ensures
        field_type_view(r) == classify_type_spec(*ty, rendered@),
{
    match ty {
        TypeAst::Path(tp) => {
            let n = tp.segments.len();
            if n == 0 {
                return FieldType::Other(owned(rendered));
            }
            let last = &tp.segments[n - 1];
            let id = last.ident.as_str();
            if str_eq(id, "String") && n == 1 {
                FieldType::String
            } else if str_eq(id, "i32") && n == 1 {
                FieldType::I32
            } else if (str_eq(id, "i64") || str_eq(id, "u64")) && n == 1 {
                FieldType::I64
            } else if str_eq(id, "bool") && n == 1 {
                FieldType::Bool
            } else if str_eq(id, "Option") {
                match extract_generic_arg(last) {
                    Some(inner) => {
                        let s = inner.as_str();
                        if str_eq(s, "String") {
                            FieldType::OptionString
                        } else if str_eq(s, "i32") {
                            FieldType::OptionI32
                        } else if str_eq(s, "i64") || str_eq(s, "u64") {
                            FieldType::OptionI64
                        } else if str_eq(s, "bool") {
                            FieldType::OptionBool
                        } else {
                            FieldType::OptionEnum(inner)
                        }
                    },
                    None => FieldType::Other(owned(rendered)),
                }
            } else if str_eq(id, "Vec") {
                match extract_generic_arg(last) {
                    Some(inner) => {
                        if str_eq(inner.as_str(), "String") {
                            FieldType::VecString
                        } else {
                            FieldType::VecStruct(inner)
                        }
                    },
                    None => FieldType::Other(owned(rendered)),
                }
            } else {
                FieldType::Other(owned(rendered))
            }
        },
        _ => FieldType::Other(owned(rendered)),
    }
}

// ─── Entity assembly ────────────────────────────────────────────────────────

/// The struct-level `#[ontology(entity, ...)]` values.
#[derive(Debug, Clone, PartialEq, Eq)]
pub struct StructOntologyAttrs {
    /// `directory = "..."`.
    pub directory: Option<String>,
    /// `table = "..."`.
    pub table: Option<String>,
    /// `type_name = "..."`.
    pub type_tag: Option<String>,
    /// `prefix = "..."`.
    pub prefix: Option<String>,
}

/// The value given, else the default.
pub open spec fn value_or(o: Option<String>, d: Seq<char>) -> Seq<char> {
    match o {
        Some(s) => s@,
        None => d,
    }
}

/// The entity's resolved identifiers, with their field names.
pub open spec fn entity_idents(name: Seq<char>, a: StructOntologyAttrs) -> Seq<(Seq<char>, Seq<char>)> {
    let d = snake_spec(name);
    seq![
        ("directory"@, value_or(a.directory, d)),
        ("table"@, value_or(a.table, d)),
        ("type_name"@, value_or(a.type_tag, d)),
        ("prefix"@, value_or(a.prefix, d)),
    ]
}

/// The first of the entity's resolved identifiers, in the order directory,
/// table, type_name, prefix, that is not a valid identifier, with its field
/// name.
pub open spec fn first_invalid(ids: Seq<(Seq<char>, Seq<char>)>) -> Option<(Seq<char>, Seq<char>)> {
    if !is_identifier(ids[0].1) {
        Some(ids[0])
    } else if !is_identifier(ids[1].1) {
        Some(ids[1])
    } else if !is_identifier(ids[2].1) {
        Some(ids[2])
    } else if !is_identifier(ids[3].1) {
        Some(ids[3])
    } else {
        None
    }
}

fn or_default(o: Option<String>, d: &String) -> (r: String)
    ensures
        r@ == value_or(o, d@),
{
    match o {
        Some(s) => s,
        None => d.clone(),
    }
}

/// Assemble an entity from its struct name, its struct-level attributes and
/// its parsed fields: each of `directory`, `table`, `type_name` and `prefix`
/// defaults to the snake_case name and must be a valid identifier.
pub fn build_entity(name: String, attrs: StructOntologyAttrs, fields: Vec<FieldDef>) -> (r: Result<
    EntityDef,
    String,
>)
    ensures
        match first_invalid(entity_idents(name@, attrs)) {
            Some(bad) => r matches Err(e) && e@ == "entity `"@ + name@ + "`: "@ + identifier_error(bad.0, bad.1),
            None => r matches Ok(ent) && {
                &&& ent.name@ == name@
                &&& ent.doc@.len() == 0
                &&& ent.directory@ == entity_idents(name@, attrs)[0].1
                &&& ent.table@ == entity_idents(name@, attrs)[1].1
                &&& ent.type_tag@ == entity_idents(name@, attrs)[2].1
                &&& ent.prefix@ == entity_idents(name@, attrs)[3].1
                &&& ent.fields@ == fields@
            },
        },
{
    let ghost ids = entity_idents(name@, attrs);
    let default_snake = to_snake_case(name.as_str());
    let directory = or_default(attrs.directory, &default_snake);
    let table = or_default(attrs.table, &default_snake);
    let type_tag = or_default(attrs.type_tag, &default_snake);
    let prefix = or_default(attrs.prefix, &default_snake);
    proof {
        reveal_strlit("directory");
        reveal_strlit("table");
        reveal_strlit("type_name");
        reveal_strlit("prefix");
    }
    if let Err(e) = validate_identifier("directory", directory.as_str()) {
        return Err(entity_error(&name, e));
    }
    if let Err(e) = validate_identifier("table", table.as_str()) {
        return Err(entity_error(&name, e));
    }
    if let Err(e) = validate_identifier("type_name", type_tag.as_str()) {
        return Err(entity_error(&name, e));
    }
    if let Err(e) = validate_identifier("prefix", prefix.as_str()) {
        return Err(entity_error(&name, e));
    }
    Ok(EntityDef { name, doc: String::new(), directory, table, type_tag, prefix, fields })
}

fn entity_error(name: &String, e: String) -> (r: String)
    ensures
        r@ == "entity `"@ + name@ + "`: "@ + e@,
{
    let mut r = String::from_str("entity `");
    r.append(name.as_str());
    r.append("`: ");
    r.append(e.as_str());
    r
}

// ─── Attributes ─────────────────────────────────────────────────────────────

/// A string value as a view.
pub open spec fn opt_v(o: Option<String>) -> Option<Seq<char>> {
    match o {
        Some(s) => Some(s@),
        None => None,
    }
}

/// Some attribute is `#[derive(..)]` naming `OntologyEntity`.
pub open spec fn has_entity_derive_spec(attrs: Seq<AttrInfo>) -> bool {
    exists|i: int|
        0 <= i < attrs.len() && path_is((#[trigger] attrs[i]).path@, "derive"@) && match attrs[i].meta {
            AttrMeta::List(Some(items)) => exists|j: int|
                0 <= j < items@.len() && (#[trigger] items@[j] matches MetaItem::Path(p) && path_is(
                    p@,
                    "OntologyEntity"@,
                )),
            _ => false,
        }
}

/// The struct-level values as views: (is_entity, directory, table,
/// type_name, prefix).
pub type StructAttrsV = (bool, Option<Seq<char>>, Option<Seq<char>>, Option<Seq<char>>, Option<Seq<char>>);

/// The values of one `#[ontology(...)]` list, from `st`.
pub open spec fn struct_items(items: Seq<MetaItem>, st: StructAttrsV) -> StructAttrsV
    decreases items.len(),
{
    if items.len() == 0 {
        st
    } else {
        let rest = items.subrange(1, items.len() as int);
        let next = match items[0] {
            MetaItem::Path(p) => if path_is(p@, "entity"@) {
                (true, st.1, st.2, st.3, st.4)
            } else {
                st
            },
            MetaItem::NameValue(p, v) => if path_is(p@, "directory"@) {
                (st.0, opt_v(v), st.2, st.3, st.4)
            } else if path_is(p@, "table"@) {
                (st.0, st.1, opt_v(v), st.3, st.4)
            } else if path_is(p@, "type_name"@) {
                (st.0, st.1, st.2, opt_v(v), st.4)
            } else if path_is(p@, "prefix"@) {
                (st.0, st.1, st.2, st.3, opt_v(v))
            } else {
                st
            },
            _ => st,
        };
        struct_items(rest, next)
    }
}

/// The values of the first well-formed `#[ontology(entity, ...)]`
/// attribute; attributes that are not lists of meta items are passed over.
pub open spec fn struct_attrs_spec(attrs: Seq<AttrInfo>) -> Option<StructAttrsV>
    decreases attrs.len(),
{
    if attrs.len() == 0 {
        None
    } else {
        let rest = struct_attrs_spec(attrs.subrange(1, attrs.len() as int));
        let a = attrs[0];
        if path_is(a.path@, "ontology"@) {
            match a.meta {
                AttrMeta::List(Some(items)) => {
                    let st = struct_items(items@, (false, None, None, None, None));
                    if st.0 {
                        Some(st)
                    } else {
                        rest
                    }
                },
                _ => rest,
            }
        } else {
            rest
        }
    }
}

/// The four values of struct-level values.
pub open spec fn sa_values(st: StructAttrsV) -> (Option<Seq<char>>, Option<Seq<char>>, Option<Seq<char>>, Option<Seq<char>>) {
    (st.1, st.2, st.3, st.4)
}

/// The view of struct-level values.
pub open spec fn struct_attrs_v(a: StructOntologyAttrs) -> (Option<Seq<char>>, Option<Seq<char>>, Option<Seq<char>>, Option<Seq<char>>) {
    (opt_v(a.directory), opt_v(a.table), opt_v(a.type_tag), opt_v(a.prefix))
}

/// Whether the struct derives `OntologyEntity`.
pub fn has_ontology_entity_derive(attrs: &Vec<AttrInfo>) -> (b: bool)
    ensures
        b == has_entity_derive_spec(attrs@),
{
    let mut i: usize = 0;
    while i < attrs.len()
        invariant
            i <= attrs.len(),
            forall|k: int|
                0 <= k < i ==> !(path_is((#[trigger] attrs@[k]).path@, "derive"@) && match attrs@[k].meta {
                    AttrMeta::List(Some(items)) => exists|j: int|
                        0 <= j < items@.len() && (#[trigger] items@[j] matches MetaItem::Path(p) && path_is(
                            p@,
                            "OntologyEntity"@,
                        )),
                    _ => false,
                }),
        decreases attrs.len() - i,
    {
        let a = &attrs[i];
        if path_is_ident(&a.path, "derive") {
            match &a.meta {
                AttrMeta::List(Some(items)) => {
                    let mut j: usize = 0;
                    while j < items.len()
                        invariant
                            j <= items.len(),
                            i < attrs@.len(),
                            attrs@[i as int].meta matches AttrMeta::List(Some(its)) && its == *items,
                            path_is(attrs@[i as int].path@, "derive"@),
                            forall|x: int|
                                0 <= x < j ==> !(#[trigger] items@[x] matches MetaItem::Path(p) && path_is(
                                    p@,
                                    "OntologyEntity"@,
                                )),
                        decreases items.len() - j,
                    {
                        match &items[j] {
                            MetaItem::Path(p) => {
                                if path_is_ident(p, "OntologyEntity") {
                                    assert(items@[j as int] matches MetaItem::Path(pp) && path_is(pp@, "OntologyEntity"@));
                                    return true;
                                }
                            },
                            _ => {},
                        }
                        j = j + 1;
                    }
                },
                _ => {},
            }
        }
        i = i + 1;
    }
    false
}

fn opt_clone(o: &Option<String>) -> (r: Option<String>)
    ensures
        opt_v(r) == opt_v(*o),
{
    match o {
        Some(s) => Some(s.clone()),
        None => None,
    }
}

/// Parse the struct-level `#[ontology(entity, ...)]` attribute: the values
/// of the first `ontology` attribute that names `entity`.
pub fn parse_struct_ontology_attrs(attrs: &Vec<AttrInfo>) -> (r: Option<StructOntologyAttrs>)
    ensures
        match struct_attrs_spec(attrs@) {
            Some(st) => r matches Some(a) && struct_attrs_v(a) == (st.1, st.2, st.3, st.4),
            None => r is None,
        },
{
    let mut i: usize = 0;
    assert(attrs@.subrange(0, attrs@.len() as int) =~= attrs@);
    while i < attrs.len()
        invariant
            i <= attrs.len(),
            struct_attrs_spec(attrs@) == struct_attrs_spec(attrs@.subrange(i as int, attrs@.len() as int)),
        decreases attrs.len() - i,
    {
        let ghost t = attrs@.subrange(i as int, attrs@.len() as int);
        assert(t[0] == attrs@[i as int]);
        assert(t.subrange(1, t.len() as int) =~= attrs@.subrange(i + 1, attrs@.len() as int));
        let a = &attrs[i];
        if path_is_ident(&a.path, "ontology") {
            match &a.meta {
                AttrMeta::List(Some(items)) => {
                    let mut is_entity = false;
                    let mut directory: Option<String> = None;
                    let mut table: Option<String> = None;
                    let mut type_tag: Option<String> = None;
                    let mut prefix: Option<String> = None;
                    let mut j: usize = 0;
                    let ghost start: StructAttrsV = (false, None, None, None, None);
                    assert(items@.subrange(0, items@.len() as int) =~= items@);
                    while j < items.len()
                        invariant
                            j <= items.len(),
                            struct_items(items@, start) == struct_items(
                                items@.subrange(j as int, items@.len() as int),
                                (is_entity, opt_v(directory), opt_v(table), opt_v(type_tag), opt_v(prefix)),
                            ),
                        decreases items.len() - j,
                    {
                        let ghost u = items@.subrange(j as int, items@.len() as int);
                        assert(u[0] == items@[j as int]);
                        assert(u.subrange(1, u.len() as int) =~= items@.subrange(j + 1, items@.len() as int));
                        match &items[j] {
                            MetaItem::Path(p) => {
                                if path_is_ident(p, "entity") {
                                    is_entity = true;
                                }
                            },
                            MetaItem::NameValue(p, v) => {
                                if path_is_ident(p, "directory") {
                                    directory = opt_clone(v);
                                } else if path_is_ident(p, "table") {
                                    table = opt_clone(v);
                                } else if path_is_ident(p, "type_name") {
                                    type_tag = opt_clone(v);
                                } else if path_is_ident(p, "prefix") {
                                    prefix = opt_clone(v);
                                }
                            },
                            _ => {},
                        }
                        j = j + 1;
                    }
                    assert(items@.subrange(j as int, items@.len() as int) =~= Seq::<MetaItem>::empty());
                    if is_entity {
                        return Some(StructOntologyAttrs { directory, table, type_tag, prefix });
                    }
                },
                _ => {},
            }
        }
        i = i + 1;
    }
    None
}

/// Whether the field carries `#[serde(default)]`.
pub open spec fn serde_default_spec(attrs: Seq<AttrInfo>) -> bool {
    exists|i: int|
        0 <= i < attrs.len() && path_is((#[trigger] attrs[i]).path@, "serde"@) && match attrs[i].meta {
            AttrMeta::List(Some(items)) => exists|j: int|
                0 <= j < items@.len() && (#[trigger] items@[j] matches MetaItem::Path(p) && path_is(
                    p@,
                    "default"@,
                )),
            _ => false,
        }
}

/// Check if a field has `#[serde(default)]`.
pub fn has_serde_default(attrs: &Vec<AttrInfo>) -> (b: bool)
    ensures
        b == serde_default_spec(attrs@),
{
    let mut i: usize = 0;
    while i < attrs.len()
        invariant
            i <= attrs.len(),
            forall|k: int|
                0 <= k < i ==> !(path_is((#[trigger] attrs@[k]).path@, "serde"@) && match attrs@[k].meta {
                    AttrMeta::List(Some(items)) => exists|j: int|
                        0 <= j < items@.len() && (#[trigger] items@[j] matches MetaItem::Path(p) && path_is(
                            p@,
                            "default"@,
                        )),
                    _ => false,
                }),
        decreases attrs.len() - i,
    {
        let a = &attrs[i];
        if path_is_ident(&a.path, "serde") {
            match &a.meta {
                AttrMeta::List(Some(items)) => {
                    let mut j: usize = 0;
                    while j < items.len()
                        invariant
                            j <= items.len(),
                            i < attrs@.len(),
                            attrs@[i as int].meta matches AttrMeta::List(Some(its)) && its == *items,
                            path_is(attrs@[i as int].path@, "serde"@),
                            forall|x: int|
                                0 <= x < j ==> !(#[trigger] items@[x] matches MetaItem::Path(p) && path_is(
                                    p@,
                                    "default"@,
                                )),
                        decreases items.len() - j,
                    {
                        match &items[j] {
                            MetaItem::Path(p) => {
                                if path_is_ident(p, "default") {
                                    assert(items@[j as int] matches MetaItem::Path(pp) && path_is(pp@, "default"@));
                                    return true;
                                }
                            },
                            _ => {},
                        }
                        j = j + 1;
                    }
                },
                _ => {},
            }
        }
        i = i + 1;
    }
    false
}

// ─── Relation and field attributes ──────────────────────────────────────────

/// The relation values seen so far: (kind name, target, junction,
/// foreign key).
pub type RelItemsV = (Option<Seq<char>>, Option<Seq<char>>, Option<Seq<char>>, Option<Seq<char>>);

/// The values of the items of `relation(...)`, from `st`: the first bare
/// identifier is the kind; `target`, `junction` and `foreign_key` take their
/// string values (a value that is not a string literal clears them).
pub open spec fn rel_items(items: Seq<MetaItem>, st: RelItemsV) -> RelItemsV
    decreases items.len(),
{
    if items.len() == 0 {
        st
    } else {
        let rest = items.subrange(1, items.len() as int);
        let next = match items[0] {
            MetaItem::Path(p) => if st.0 is None && p@.len() == 1 {
                (Some(p@[0]@), st.1, st.2, st.3)
            } else {
                st
            },
            MetaItem::NameValue(p, v) => if path_is(p@, "target"@) {
                (st.0, opt_v(v), st.2, st.3)
            } else if path_is(p@, "junction"@) {
                (st.0, st.1, opt_v(v), st.3)
            } else if path_is(p@, "foreign_key"@) {
                (st.0, st.1, st.2, opt_v(v))
            } else {
                st
            },
            _ => st,
        };
        rel_items(rest, next)
    }
}

/// A relation as (kind, target, junction, foreign key).
pub type RelV = (RelationKind, Seq<char>, Option<Seq<char>>, Option<Seq<char>>);

/// The view of a relation.
pub open spec fn rel_v(r: RelationInfo) -> RelV {
    (r.kind, r.target@, opt_v(r.junction), opt_v(r.foreign_key))
}

/// The relation a `relation(...)` list declares: none when its arguments do
/// not parse or name no target or no kind; an error for an unknown kind.
pub open spec fn relation_spec(inner: Option<Vec<MetaItem>>) -> Result<Option<RelV>, Seq<char>> {
    match inner {
        None => Ok(None),
        Some(items) => {
            let st = rel_items(items@, (None, None, None, None));
            if st.1 is None || st.0 is None {
                Ok(None)
            } else {
                match relation_kind_spec(st.0->0) {
                    Some(k) => Ok(Some((k, st.1->0, st.2, st.3))),
                    None => Err(
                        "Unknown relation kind '"@ + st.0->0 + "'. Expected belongs_to, has_many, or many_to_many"@,
                    ),
                }
            }
        },
    }
}

/// Parse `relation(kind, target = "...", ...)` into a relation.
pub fn parse_relation_meta(inner: &Option<Vec<MetaItem>>) -> (r: Result<Option<RelationInfo>, String>)
    ensures
        match relation_spec(*inner) {
            Ok(None) => r matches Ok(None),
            Ok(Some(v)) => r matches Ok(Some(info)) && rel_v(info) == v,
            Err(e) => r matches Err(x) && x@ == e,
        },
{
    let items = match inner {
        None => {
            return Ok(None);
        },
        Some(items) => items,
    };
    let mut kind_name: Option<String> = None;
    let mut target: Option<String> = None;
    let mut junction: Option<String> = None;
    let mut foreign_key: Option<String> = None;
    let ghost start: RelItemsV = (None, None, None, None);
    let mut j: usize = 0;
    assert(items@.subrange(0, items@.len() as int) =~= items@);
    while j < items.len()
        invariant
            j <= items.len(),
            rel_items(items@, start) == rel_items(
                items@.subrange(j as int, items@.len() as int),
                (opt_v(kind_name), opt_v(target), opt_v(junction), opt_v(foreign_key)),
            ),
        decreases items.len() - j,
    {
        let ghost u = items@.subrange(j as int, items@.len() as int);
        assert(u[0] == items@[j as int]);
        assert(u.subrange(1, u.len() as int) =~= items@.subrange(j + 1, items@.len() as int));
        match &items[j] {
            MetaItem::Path(p) => {
                if kind_name.is_none() && p.len() == 1 {
                    kind_name = Some(p[0].clone());
                }
            },
            MetaItem::NameValue(p, v) => {
                if path_is_ident(p, "target") {
                    target = opt_clone(v);
                } else if path_is_ident(p, "junction") {
                    junction = opt_clone(v);
                } else if path_is_ident(p, "foreign_key") {
                    foreign_key = opt_clone(v);
                }
            },
            _ => {},
        }
        j = j + 1;
    }
    assert(items@.subrange(j as int, items@.len() as int) =~= Seq::<MetaItem>::empty());
    let target = match target {
        None => {
            return Ok(None);
        },
        Some(t) => t,
    };
    let kind_str = match kind_name {
        None => {
            return Ok(None);
        },
        Some(k) => k,
    };
    let kind = relation_kind_from(kind_str.as_str())?;
    Ok(Some(RelationInfo { kind, target, junction, foreign_key }))
}

/// A field role with its strings as views.
pub enum RoleV {
    Id,
    Body,
    Plain,
    EnumField,
    Skip,
    Relation(RelV),
}

/// The view of a field role.
pub open spec fn role_v(r: FieldRole) -> RoleV {
    match r {
        FieldRole::Id => RoleV::Id,
        FieldRole::Body => RoleV::Body,
        FieldRole::Plain => RoleV::Plain,
        FieldRole::EnumField => RoleV::EnumField,
        FieldRole::Skip => RoleV::Skip,
        FieldRole::Relation(info) => RoleV::Relation(rel_v(info)),
    }
}

/// The field-level values: (role, multiline list, default value).
pub type FieldAttrsV = (RoleV, bool, Option<Seq<char>>);

/// The values of one `#[ontology(...)]` list on a field, from `st`; the
/// last role marker wins.
pub open spec fn field_items(items: Seq<MetaItem>, st: FieldAttrsV) -> Result<FieldAttrsV, Seq<char>>
    decreases items.len(),
{
    if items.len() == 0 {
        Ok(st)
    } else {
        let rest = items.subrange(1, items.len() as int);
        match items[0] {
            MetaItem::Path(p) => if path_is(p@, "id"@) {
                field_items(rest, (RoleV::Id, st.1, st.2))
            } else if path_is(p@, "body"@) {
                field_items(rest, (RoleV::Body, st.1, st.2))
            } else if path_is(p@, "enum_field"@) {
                field_items(rest, (RoleV::EnumField, st.1, st.2))
            } else if path_is(p@, "skip"@) {
                field_items(rest, (RoleV::Skip, st.1, st.2))
            } else if path_is(p@, "multiline_list"@) {
                field_items(rest, (st.0, true, st.2))
            } else {
                field_items(rest, st)
            },
            MetaItem::List(p, inner) => if path_is(p@, "relation"@) {
                match relation_spec(inner) {
                    Err(e) => Err(e),
                    Ok(Some(rv)) => field_items(rest, (RoleV::Relation(rv), st.1, st.2)),
                    Ok(None) => field_items(rest, st),
                }
            } else {
                field_items(rest, st)
            },
            MetaItem::NameValue(p, v) => if path_is(p@, "default_value"@) {
                field_items(rest, (st.0, st.1, opt_v(v)))
            } else {
                field_items(rest, st)
            },
        }
    }
}

/// The values of every `#[ontology(...)]` attribute on a field, in order,
/// from `st`; attributes that are not lists of meta items are passed over.
pub open spec fn field_attrs_spec(attrs: Seq<AttrInfo>, st: FieldAttrsV) -> Result<FieldAttrsV, Seq<char>>
    decreases attrs.len(),
{
    if attrs.len() == 0 {
        Ok(st)
    } else {
        let rest = attrs.subrange(1, attrs.len() as int);
        let a = attrs[0];
        if path_is(a.path@, "ontology"@) {
            match a.meta {
                AttrMeta::List(Some(items)) => match field_items(items@, st) {
                    Err(e) => Err(e),
                    Ok(st2) => field_attrs_spec(rest, st2),
                },
                _ => field_attrs_spec(rest, st),
            }
        } else {
            field_attrs_spec(rest, st)
        }
    }
}

/// The field-level `#[ontology(...)]` values.
#[derive(Debug, Clone, PartialEq, Eq)]
pub struct FieldOntologyAttrs {
    /// The field's role.
    pub role: FieldRole,
    /// Whether a list is rendered one item per line.
    pub multiline_list: bool,
    /// The declared default value.
    pub default_value: Option<String>,
}

/// The view of field-level values.
pub open spec fn field_attrs_v(a: FieldOntologyAttrs) -> FieldAttrsV {
    (role_v(a.role), a.multiline_list, opt_v(a.default_value))
}

fn apply_field_items(items: &Vec<MetaItem>, acc: &mut FieldOntologyAttrs) -> (r: Result<(), String>)
    ensures
        match field_items(items@, field_attrs_v(*old(acc))) {
            Ok(st) => r is Ok && field_attrs_v(*final(acc)) == st,
            Err(e) => r matches Err(x) && x@ == e,
        },
{
    let mut j: usize = 0;
    let ghost start = field_attrs_v(*acc);
    assert(items@.subrange(0, items@.len() as int) =~= items@);
    while j < items.len()
        invariant
            j <= items.len(),
            start == field_attrs_v(*old(acc)),
            field_items(items@, start) == field_items(items@.subrange(j as int, items@.len() as int), field_attrs_v(*acc)),
        decreases items.len() - j,
    {
        let ghost u = items@.subrange(j as int, items@.len() as int);
        assert(u[0] == items@[j as int]);
        assert(u.subrange(1, u.len() as int) =~= items@.subrange(j + 1, items@.len() as int));
        match &items[j] {
            MetaItem::Path(p) => {
                if path_is_ident(p, "id") {
                    acc.role = FieldRole::Id;
                } else if path_is_ident(p, "body") {
                    acc.role = FieldRole::Body;
                } else if path_is_ident(p, "enum_field") {
                    acc.role = FieldRole::EnumField;
                } else if path_is_ident(p, "skip") {
                    acc.role = FieldRole::Skip;
                } else if path_is_ident(p, "multiline_list") {
                    acc.multiline_list = true;
                }
            },
            MetaItem::List(p, inner) => {
                if path_is_ident(p, "relation") {
                    match parse_relation_meta(inner) {
                        Err(e) => {
                            return Err(e);
                        },
                        Ok(Some(info)) => {
                            acc.role = FieldRole::Relation(info);
                        },
                        Ok(None) => {},
                    }
                }
            },
            MetaItem::NameValue(p, v) => {
                if path_is_ident(p, "default_value") {
                    acc.default_value = opt_clone(v);
                }
            },
        }
        j = j + 1;
    }
    assert(items@.subrange(j as int, items@.len() as int) =~= Seq::<MetaItem>::empty());
    Ok(())
}

/// Parse all field-level `#[ontology(...)]` attributes, collecting the role
/// and rendering hints; a field with no role marker is `Plain`.
pub fn parse_field_ontology_attrs(attrs: &Vec<AttrInfo>) -> (r: Result<FieldOntologyAttrs, String>)
    ensures
        match field_attrs_spec(attrs@, (RoleV::Plain, false, None)) {
            Ok(st) => r matches Ok(a) && field_attrs_v(a) == st,
            Err(e) => r matches Err(x) && x@ == e,
        },
{
    let mut acc = FieldOntologyAttrs { role: FieldRole::Plain, multiline_list: false, default_value: None };
    let ghost start: FieldAttrsV = (RoleV::Plain, false, None);
    let mut i: usize = 0;
    assert(attrs@.subrange(0, attrs@.len() as int) =~= attrs@);
    while i < attrs.len()
        invariant
            i <= attrs.len(),
            start == (RoleV::Plain, false, None::<Seq<char>>),
            field_attrs_spec(attrs@, start) == field_attrs_spec(
                attrs@.subrange(i as int, attrs@.len() as int),
                field_attrs_v(acc),
            ),
        decreases attrs.len() - i,
    {
        let ghost t = attrs@.subrange(i as int, attrs@.len() as int);
        assert(t[0] == attrs@[i as int]);
        assert(t.subrange(1, t.len() as int) =~= attrs@.subrange(i + 1, attrs@.len() as int));
        let a = &attrs[i];
        if path_is_ident(&a.path, "ontology") {
            match &a.meta {
                AttrMeta::List(Some(items)) => {
                    apply_field_items(items, &mut acc)?;
                },
                _ => {},
            }
        }
        i = i + 1;
    }
    assert(attrs@.subrange(i as int, attrs@.len() as int) =~= Seq::<AttrInfo>::empty());
    Ok(acc)
}

// ─── Fields, structs and files ──────────────────────────────────────────────

/// A struct field as the schema scanner reads it.
#[derive(Debug)]
pub struct FieldInput {
    /// The field's identifier.
    pub name: String,
    /// The field's type.
    pub ty: TypeAst,
    /// The type's tokens as written out by the token printer.
    pub tokens: String,
    /// The field's outer attributes.
    pub attrs: Vec<AttrInfo>,
}

/// `f` is the field definition parsed from `input` with values `st`.
pub open spec fn field_from(f: FieldDef, input: FieldInput, st: FieldAttrsV) -> bool {
    &&& f.name@ == input.name@
    &&& f.doc@.len() == 0
    &&& field_type_view(f.field_type) == classify_type_spec(input.ty, input.tokens@)
    &&& role_v(f.role) == st.0
    &&& f.serde_default == serde_default_spec(input.attrs@)
    &&& f.multiline_list == st.1
    &&& opt_v(f.default_value) == st.2
}

/// The error of a field whose attributes are refused.
pub open spec fn field_error(name: Seq<char>, e: Seq<char>) -> Seq<char> {
    "field `"@ + name + "`: "@ + e
}

/// Parse a single struct field into a field definition.
pub fn parse_field(field: &FieldInput) -> (r: Result<FieldDef, String>)
    ensures
        match field_attrs_spec(field.attrs@, (RoleV::Plain, false, None)) {
            Ok(st) => r matches Ok(f) && field_from(f, *field, st),
            Err(e) => r matches Err(x) && x@ == field_error(field.name@, e),
        },
{
    let field_type = classify_type(&field.ty, field.tokens.as_str());
    let attrs = match parse_field_ontology_attrs(&field.attrs) {
        Ok(a) => a,
        Err(e) => {
            let mut m = String::from_str("field `");
            m.append(field.name.as_str());
            m.append("`: ");
            m.append(e.as_str());
            return Err(m);
        },
    };
    let serde_default = has_serde_default(&field.attrs);
    Ok(
        FieldDef {
            name: field.name.clone(),
            doc: String::new(),
            field_type,
            role: attrs.role,
            serde_default,
            multiline_list: attrs.multiline_list,
            default_value: attrs.default_value,
        },
    )
}

/// The first field whose attributes are refused, with its error.
pub open spec fn first_field_error(fields: Seq<FieldInput>) -> Option<Seq<char>>
    decreases fields.len(),
{
    if fields.len() == 0 {
        None
    } else {
        match field_attrs_spec(fields[0].attrs@, (RoleV::Plain, false, None)) {
            Err(e) => Some(field_error(fields[0].name@, e)),
            Ok(_) => first_field_error(fields.subrange(1, fields.len() as int)),
        }
    }
}

/// `d` is the definition parsed from `f`.
pub open spec fn field_ok(d: FieldDef, f: FieldInput) -> bool {
    match field_attrs_spec(f.attrs@, (RoleV::Plain, false, None)) {
        Ok(st) => field_from(d, f, st),
        Err(_) => false,
    }
}

/// `defs` are the definitions parsed from `fields`, in order.
pub open spec fn fields_from(defs: Seq<FieldDef>, fields: Seq<FieldInput>) -> bool {
    &&& defs.len() == fields.len()
    &&& forall|i: int| 0 <= i < fields.len() ==> field_ok(#[trigger] defs[i], fields[i])
}

/// The error of a struct whose fields are not named.
pub open spec fn unnamed_error(name: Seq<char>, path: Seq<char>) -> Seq<char> {
    "Struct "@ + name + " in "@ + path + " must have named fields"@
}

/// What parsing a struct gives: none without `#[ontology(entity, ...)]`;
/// an error when its fields are not named or a field fails; otherwise the
/// entity built from its fields and struct values, or the first invalid
/// identifier's error.
pub open spec fn entity_struct_outcome(
    r: Result<Option<EntityDef>, String>,
    name: Seq<char>,
    attrs: Seq<AttrInfo>,
    fields: Option<Vec<FieldInput>>,
    path: Seq<char>,
) -> bool {
    &&& (struct_attrs_spec(attrs) is None ==> r matches Ok(None))
    &&& (struct_attrs_spec(attrs) is Some && fields is None ==> (r matches Err(e) && e@ == unnamed_error(name, path)))
    &&& struct_attrs_spec(attrs) is Some && fields is Some ==> match first_field_error(fields->0@) {
        Some(e) => r matches Err(x) && x@ == e,
        None => exists|defs: Seq<FieldDef>, sa: StructOntologyAttrs|
            {
                &&& fields_from(defs, fields->0@)
                &&& struct_attrs_v(sa) == sa_values(struct_attrs_spec(attrs)->Some_0)
                &&& match first_invalid(entity_idents(name, sa)) {
                    Some(bad) => r matches Err(e) && e@ == "entity `"@ + name + "`: "@ + identifier_error(
                        bad.0,
                        bad.1,
                    ),
                    None => r matches Ok(Some(ent)) && {
                        &&& ent.name@ == name
                        &&& ent.directory@ == entity_idents(name, sa)[0].1
                        &&& ent.table@ == entity_idents(name, sa)[1].1
                        &&& ent.type_tag@ == entity_idents(name, sa)[2].1
                        &&& ent.prefix@ == entity_idents(name, sa)[3].1
                        &&& ent.fields@ == defs
                    },
                }
            },
    }
}

/// Parse a struct into an entity: none when it has no
/// `#[ontology(entity, ...)]`; `fields` is `None` when its fields are not
/// named; `path` names the file in errors.
pub fn parse_entity_struct(name: String, attrs: &Vec<AttrInfo>, fields: &Option<Vec<FieldInput>>, path: &str) -> (r:
    Result<Option<EntityDef>, String>)
    ensures
        entity_struct_outcome(r, name@, attrs@, *fields, path@),
{
    let sa = match parse_struct_ontology_attrs(attrs) {
        None => {
            return Ok(None);
        },
        Some(a) => a,
    };
    let fs = match fields {
        None => {
            let mut e = String::from_str("Struct ");
            e.append(name.as_str());
            e.append(" in ");
            e.append(path);
            e.append(" must have named fields");
            return Err(e);
        },
        Some(fs) => fs,
    };
    let mut defs: Vec<FieldDef> = Vec::new();
    let mut i: usize = 0;
    assert(fs@.subrange(0, fs@.len() as int) =~= fs@);
    while i < fs.len()
        invariant
            i <= fs.len(),
            struct_attrs_spec(attrs@) is Some,
            *fields == Some(*fs),
            first_field_error(fs@) == first_field_error(fs@.subrange(i as int, fs@.len() as int)),
            defs@.len() == i,
            forall|k: int| 0 <= k < i ==> field_ok(#[trigger] defs@[k], fs@[k]),
        decreases fs.len() - i,
    {
        let ghost t = fs@.subrange(i as int, fs@.len() as int);
        assert(t[0] == fs@[i as int]);
        assert(t.subrange(1, t.len() as int) =~= fs@.subrange(i + 1, fs@.len() as int));
        let d = match parse_field(&fs[i]) {
            Ok(d) => d,
            Err(e) => {
                return Err(e);
            },
        };
        let ghost before = defs@;
        defs.push(d);
        proof {
            assert(field_ok(d, fs@[i as int]));
            assert forall|k: int| 0 <= k < i + 1 implies field_ok(#[trigger] defs@[k], fs@[k]) by {
                if k < i {
                    assert(defs@[k] == before[k]);
                }
            }
        }
        i = i + 1;
    }
    assert(fs@.subrange(i as int, fs@.len() as int) =~= Seq::<FieldInput>::empty());
    let ghost dv = defs@;
    assert(fields_from(dv, fs@));
    match build_entity(name, sa, defs) {
        Ok(e) => Ok(Some(e)),
        Err(e) => Err(e),
    }
}

/// A struct of a schema source file, as the parser reads it.
#[derive(Debug)]
pub struct StructInput {
    /// The struct's identifier.
    pub name: String,
    /// Its outer attributes.
    pub attrs: Vec<AttrInfo>,
    /// Its fields, when they are named.
    pub fields: Option<Vec<FieldInput>>,
}

/// What each struct of a file gives: an entity, or nothing.
pub open spec fn items_outcome(outs: Seq<Option<EntityDef>>, structs: Seq<StructInput>, path: Seq<char>) -> bool {
    &&& outs.len() == structs.len()
    &&& forall|i: int|
        0 <= i < structs.len() ==> if has_entity_derive_spec((#[trigger] structs[i]).attrs@) {
            entity_struct_outcome(Ok(outs[i]), structs[i].name@, structs[i].attrs@, structs[i].fields, path)
        } else {
            outs[i] is None
        }
}

/// The entities of a list of outcomes, in order.
pub open spec fn somes(outs: Seq<Option<EntityDef>>) -> Seq<EntityDef>
    decreases outs.len(),
{
    if outs.len() == 0 {
        Seq::empty()
    } else {
        match outs.last() {
            Some(e) => somes(outs.drop_last()).push(e),
            None => somes(outs.drop_last()),
        }
    }
}

/// What parsing the structs of one schema file gives: the entities of the
/// structs that derive `OntologyEntity`, in file order, or the error of the
/// first such struct that fails, every struct before it having parsed.
pub open spec fn schema_items_outcome(
    r: Result<Vec<EntityDef>, String>,
    structs: Seq<StructInput>,
    path: Seq<char>,
) -> bool {
    &&& r matches Ok(v) ==> exists|outs: Seq<Option<EntityDef>>|
        items_outcome(outs, structs, path) && v@ == somes(outs)
    &&& r matches Err(e) ==> exists|k: int, outs: Seq<Option<EntityDef>>|
        {
            &&& 0 <= k < structs.len()
            &&& has_entity_derive_spec(structs[k].attrs@)
            &&& entity_struct_outcome(Err(e), structs[k].name@, structs[k].attrs@, structs[k].fields, path)
            &&& items_outcome(outs, structs.subrange(0, k), path)
        }
}

/// Parse the structs of one schema source file: each that derives
/// `OntologyEntity` is parsed, and the entities come out in file order; the
/// first struct that fails fails the file.
pub fn parse_schema_items(structs: &Vec<StructInput>, path: &str) -> (r: Result<Vec<EntityDef>, String>)
    ensures
        schema_items_outcome(r, structs@, path@),
{
    let mut entities: Vec<EntityDef> = Vec::new();
    let ghost mut outs: Seq<Option<EntityDef>> = Seq::empty();
    let mut i: usize = 0;
    while i < structs.len()
        invariant
            i <= structs.len(),
            items_outcome(outs, structs@.subrange(0, i as int), path@),
            entities@ == somes(outs),
        decreases structs.len() - i,
    {
        let st = &structs[i];
        let ghost pre = structs@.subrange(0, i as int);
        let ghost next = structs@.subrange(0, i + 1);
        assert(next =~= pre.push(*st));
        if has_ontology_entity_derive(&st.attrs) {
            match parse_entity_struct(st.name.clone(), &st.attrs, &st.fields, path) {
                Ok(Some(entity)) => {
                    proof {
                        let o2 = outs.push(Some(entity));
                        assert(o2.drop_last() =~= outs);
                        assert forall|q: int| 0 <= q < next.len() implies if has_entity_derive_spec(
                            (#[trigger] next[q]).attrs@,
                        ) {
                            entity_struct_outcome(Ok(o2[q]), next[q].name@, next[q].attrs@, next[q].fields, path@)
                        } else {
                            o2[q] is None
                        } by {
                            if q < i {
                                assert(next[q] == pre[q]);
                                assert(o2[q] == outs[q]);
                            }
                        }
                        outs = o2;
                    }
                    entities.push(entity);
                },
                Ok(None) => {
                    proof {
                        let o2 = outs.push(None);
                        assert(o2.drop_last() =~= outs);
                        assert forall|q: int| 0 <= q < next.len() implies if has_entity_derive_spec(
                            (#[trigger] next[q]).attrs@,
                        ) {
                            entity_struct_outcome(Ok(o2[q]), next[q].name@, next[q].attrs@, next[q].fields, path@)
                        } else {
                            o2[q] is None
                        } by {
                            if q < i {
                                assert(next[q] == pre[q]);
                                assert(o2[q] == outs[q]);
                            }
                        }
                        outs = o2;
                    }
                },
                Err(e) => {
                    assert(items_outcome(outs, structs@.subrange(0, i as int), path@));
                    return Err(e);
                },
            }
        } else {
            proof {
                let o2 = outs.push(None);
                assert(o2.drop_last() =~= outs);
                assert forall|q: int| 0 <= q < next.len() implies if has_entity_derive_spec(
                    (#[trigger] next[q]).attrs@,
                ) {
                    entity_struct_outcome(Ok(o2[q]), next[q].name@, next[q].attrs@, next[q].fields, path@)
                } else {
                    o2[q] is None
                } by {
                    if q < i {
                        assert(next[q] == pre[q]);
                        assert(o2[q] == outs[q]);
                    }
                }
                outs = o2;
            }
        }
        i = i + 1;
    }
    assert(structs@.subrange(0, i as int) =~= structs@);
    Ok(entities)
}

} // verus!
