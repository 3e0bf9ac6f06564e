//! Rust source files read into the library's plain values: `syn` parses a
//! file, and its structs and functions are turned, field for field, into
//! [`StructInput`] and [`FnItem`] values.
//!
//! What comes out of the parser is named by [`syn_items`]; what the library
//! makes of schema files and API files is verified over that name.

use vstd::prelude::*;

use quote::ToTokens;
use syn::punctuated::Punctuated;

use crate::attrs::{AttrInfo, AttrMeta, MetaItem};
use crate::schema::model::EntityDef;
use crate::schema::parse::{parse_schema_items, schema_items_outcome, FieldInput, StructInput};
use crate::servers::parse::{GenericArg, PathArgs, TraitBound, TypeAst, TypePath};
use crate::servers::scan::{
    api_source_outcome, parse_api_source, store_view, FnInput, FnItem, ModuleParseResult,
};

verus! {

/// A `syn` path.
#[verifier::external_type_specification]
#[verifier::external_body]
pub struct ExSynPath(syn::Path);

/// A `syn` generic argument.
#[verifier::external_type_specification]
#[verifier::external_body]
pub struct ExSynGenericArgument(syn::GenericArgument);

/// A `syn` identifier.
#[verifier::external_type_specification]
#[verifier::external_body]
pub struct ExSynIdent(syn::Ident);

/// The arguments of a `syn` path segment.
#[verifier::external_type_specification]
#[verifier::external_body]
pub struct ExSynPathArguments(syn::PathArguments);

/// A `syn` trait or lifetime bound.
#[verifier::external_type_specification]
#[verifier::external_body]
pub struct ExSynTypeParamBound(syn::TypeParamBound);

/// A `syn` type.
#[verifier::external_type_specification]
#[verifier::external_body]
pub struct ExSynType(syn::Type);

/// A `syn` expression.
#[verifier::external_type_specification]
#[verifier::external_body]
pub struct ExSynExpr(syn::Expr);

/// A `syn` attribute meta item.
#[verifier::external_type_specification]
#[verifier::external_body]
pub struct ExSynMeta(syn::Meta);

/// A `syn` attribute argument list.
#[verifier::external_type_specification]
#[verifier::external_body]
pub struct ExSynMetaList(syn::MetaList);

/// A `syn` attribute.
#[verifier::external_type_specification]
#[verifier::external_body]
pub struct ExSynAttribute(syn::Attribute);

/// A `syn` struct field.
#[verifier::external_type_specification]
#[verifier::external_body]
pub struct ExSynField(syn::Field);

/// A `syn` struct item.
#[verifier::external_type_specification]
#[verifier::external_body]
pub struct ExSynItemStruct(syn::ItemStruct);

/// A `syn` function input.
#[verifier::external_type_specification]
#[verifier::external_body]
pub struct ExSynFnArg(syn::FnArg);

/// A `syn` function item.
#[verifier::external_type_specification]
#[verifier::external_body]
pub struct ExSynItemFn(syn::ItemFn);

/// A `syn` item.
#[verifier::external_type_specification]
#[verifier::external_body]
pub struct ExSynItem(syn::Item);

/// A top-level item of a source file, as the library reads it.
#[derive(Debug)]
pub enum SourceItem {
    /// A struct.
    Struct(StructInput),
    /// A free function.
    Fn(FnItem),
    /// Any other item.
    Other,
}

/// What `syn::parse_file` makes of a source text, its items turned into
/// [`SourceItem`]s, or the parser's error message.
pub uninterp spec fn syn_items(source: Seq<char>) -> Result<Seq<SourceItem>, Seq<char>>;

/// The parse result as values.
pub open spec fn items_result_view(r: Result<Vec<SourceItem>, String>) -> Result<Seq<SourceItem>, Seq<char>> {
    match r {
        Ok(v) => Ok(v@),
        Err(e) => Err(e@),
    }
}

/// The identifiers of a path's segments.
#[verifier::external_body]
fn idents(path: &syn::Path) -> Vec<String> {
    path.segments.iter().map(|s| s.ident.to_string()).collect()
}

/// A generic argument's shape.
#[verifier::external_body]
fn generic_arg(a: &syn::GenericArgument) -> GenericArg {
    match a {
        syn::GenericArgument::Type(t) => GenericArg::Type(type_ast(t)),
        _ => GenericArg::Other,
    }
}

/// A path segment's identifier and argument shape.
#[verifier::external_body]
fn segment(ident: &syn::Ident, arguments: &syn::PathArguments) -> crate::servers::parse::PathSegment {
    let args = match arguments {
        syn::PathArguments::None => PathArgs::Bare,
        syn::PathArguments::AngleBracketed(ab) => PathArgs::AngleBracketed(ab.args.iter().map(generic_arg).collect()),
        syn::PathArguments::Parenthesized(_) => PathArgs::Parenthesized,
    };
    crate::servers::parse::PathSegment { ident: ident.to_string(), args }
}

/// A bound's shape.
#[verifier::external_body]
fn bound(b: &syn::TypeParamBound) -> TraitBound {
    match b {
        syn::TypeParamBound::Trait(t) => TraitBound::Trait(t.path.segments.iter().map(|s| segment(&s.ident, &s.arguments)).collect()),
        _ => TraitBound::Other,
    }
}

/// A type's shape: references, tuples, paths and bounds here, the
/// one-element wrappers in [`wrapped_type_ast`].
#[verifier::external_body]
fn type_ast(ty: &syn::Type) -> TypeAst {
    match ty {
        syn::Type::Reference(r) => TypeAst::Reference(Box::new(type_ast(&r.elem))),
        syn::Type::Tuple(t) => TypeAst::Tuple(t.elems.iter().map(type_ast).collect()),
        syn::Type::Path(tp) => TypeAst::Path(
            TypePath { qualified: tp.qself.is_some(), segments: tp.path.segments.iter().map(|s| segment(&s.ident, &s.arguments)).collect() },
        ),
        syn::Type::TraitObject(o) => TypeAst::TraitObject(o.bounds.iter().map(bound).collect()),
        syn::Type::ImplTrait(i) => TypeAst::ImplTrait(i.bounds.iter().map(bound).collect()),
        _ => wrapped_type_ast(ty),
    }
}

/// The shape of a group, parenthesised, array, slice or pointer type.
#[verifier::external_body]
fn wrapped_type_ast(ty: &syn::Type) -> TypeAst {
    match ty {
        syn::Type::Group(g) => TypeAst::Group(Box::new(type_ast(&g.elem))),
        syn::Type::Paren(p) => TypeAst::Paren(Box::new(type_ast(&p.elem))),
        syn::Type::Array(a) => TypeAst::Array(Box::new(type_ast(&a.elem))),
        syn::Type::Slice(s) => TypeAst::Slice(Box::new(type_ast(&s.elem))),
        syn::Type::Ptr(p) => TypeAst::Ptr(Box::new(type_ast(&p.elem))),
        _ => TypeAst::Other,
    }
}

/// A type's tokens as the token printer writes them.
#[verifier::external_body]
fn type_tokens(ty: &syn::Type) -> String {
    ty.to_token_stream().to_string()
}

/// The value of a string literal expression.
#[verifier::external_body]
fn str_lit(expr: &syn::Expr) -> Option<String> {
    match expr {
        syn::Expr::Lit(syn::ExprLit { lit: syn::Lit::Str(s), .. }) => Some(s.value()),
        _ => None,
    }
}

/// A meta item's form.
#[verifier::external_body]
fn meta_item(meta: &syn::Meta) -> MetaItem {
    match meta {
        syn::Meta::Path(p) => MetaItem::Path(idents(p)),
        syn::Meta::NameValue(nv) => MetaItem::NameValue(idents(&nv.path), str_lit(&nv.value)),
        syn::Meta::List(l) => MetaItem::List(idents(&l.path), nested(l)),
    }
}

/// An argument list's meta items, when it parses as comma-separated ones.
#[verifier::external_body]
fn nested(list: &syn::MetaList) -> Option<Vec<MetaItem>> {
    list.parse_args_with(Punctuated::<syn::Meta, syn::token::Comma>::parse_terminated)
        .ok()
        .map(|items| items.iter().map(meta_item).collect())
}

/// An attribute's path and form.
#[verifier::external_body]
fn attr_info(attr: &syn::Attribute) -> AttrInfo {
    let meta = match &attr.meta {
        syn::Meta::Path(_) => AttrMeta::Path,
        syn::Meta::List(l) => AttrMeta::List(nested(l)),
        syn::Meta::NameValue(nv) => AttrMeta::NameValue(str_lit(&nv.value)),
    };
    AttrInfo { path: idents(attr.path()), meta }
}

/// A named field's name, type and attributes.
#[verifier::external_body]
fn field_input(f: &syn::Field) -> FieldInput {
    FieldInput {
        name: f.ident.as_ref().map(|i| i.to_string()).unwrap_or_default(),
        ty: type_ast(&f.ty),
        tokens: type_tokens(&f.ty),
        attrs: f.attrs.iter().map(attr_info).collect(),
    }
}

/// A struct's name, attributes and named fields.
#[verifier::external_body]
fn struct_input(s: &syn::ItemStruct) -> StructInput {
    let fields = match &s.fields {
        syn::Fields::Named(named) => Some(named.named.iter().map(field_input).collect()),
        _ => None,
    };
    StructInput { name: s.ident.to_string(), attrs: s.attrs.iter().map(attr_info).collect(), fields }
}

/// A function input: a receiver, or a binding's name, tokens and type.
#[verifier::external_body]
fn fn_input(arg: &syn::FnArg) -> FnInput {
    match arg {
        syn::FnArg::Receiver(_) => FnInput::Receiver,
        syn::FnArg::Typed(pt) => FnInput::Typed {
            name: match &*pt.pat {
                syn::Pat::Ident(pi) => pi.ident.to_string(),
                _ => String::new(),
            },
            tokens: type_tokens(&pt.ty),
            ty: type_ast(&pt.ty),
        },
    }
}

/// A generic argument's tokens as the token printer writes them.
#[verifier::external_body]
fn generic_arg_tokens(a: &syn::GenericArgument) -> String {
    a.to_token_stream().to_string()
}

/// The tokens of each generic argument of a path type's last segment, in
/// order; none when the type is no path or that segment has no angle
/// brackets.
#[verifier::external_body]
fn last_segment_arg_tokens(ty: &syn::Type) -> Vec<String> {
    match ty {
        syn::Type::Path(tp) => match tp.path.segments.last().map(|s| &s.arguments) {
            Some(syn::PathArguments::AngleBracketed(ab)) => ab.args.iter().map(generic_arg_tokens).collect(),
            _ => Vec::new(),
        },
        _ => Vec::new(),
    }
}

/// A function's name, visibility, asyncness, attributes, inputs and
/// return type.
#[verifier::external_body]
fn fn_item(f: &syn::ItemFn) -> FnItem {
    let (output, ret_arg_tokens) = match &f.sig.output {
        syn::ReturnType::Default => (None, Vec::new()),
        syn::ReturnType::Type(_, ty) => (Some(type_ast(ty)), last_segment_arg_tokens(ty)),
    };
    FnItem {
        name: f.sig.ident.to_string(),
        is_pub: matches!(f.vis, syn::Visibility::Public(_)),
        is_async: f.sig.asyncness.is_some(),
        attrs: f.attrs.iter().map(attr_info).collect(),
        inputs: f.sig.inputs.iter().map(fn_input).collect(),
        output,
        ret_arg_tokens,
    }
}

/// A top-level item: a struct, a function, or another item.
#[verifier::external_body]
fn source_item(item: &syn::Item) -> SourceItem {
    match item {
        syn::Item::Struct(s) => SourceItem::Struct(struct_input(s)),
        syn::Item::Fn(f) => SourceItem::Fn(fn_item(f)),
        _ => SourceItem::Other,
    }
}

/// `syn::parse_file`: the items of a Rust source text, each turned into a
/// [`SourceItem`], or the parser's error message. The contract names the
/// result by [`syn_items`], a function of the text alone.
#[verifier::external_body]
fn parse_source_items(source: &str) -> (r: Result<Vec<SourceItem>, String>)
    ensures
        items_result_view(r) == syn_items(source@),
{
    match syn::parse_file(source) {
        Ok(file) => Ok(file.items.iter().map(source_item).collect()),
        Err(e) => Err(e.to_string()),
    }
}

/// The structs among `items`, in order.
pub open spec fn structs_of(items: Seq<SourceItem>) -> Seq<StructInput>
    decreases items.len(),
{
    if items.len() == 0 {
        Seq::empty()
    } else {
        match items.last() {
            SourceItem::Struct(s) => structs_of(items.drop_last()).push(s),
            _ => structs_of(items.drop_last()),
        }
    }
}

/// The functions among `items`, in order.
pub open spec fn fns_of(items: Seq<SourceItem>) -> Seq<FnItem>
    decreases items.len(),
{
    if items.len() == 0 {
        Seq::empty()
    } else {
        match items.last() {
            SourceItem::Fn(f) => fns_of(items.drop_last()).push(f),
            _ => fns_of(items.drop_last()),
        }
    }
}

/// Split parsed items into their structs and their functions, in order.
fn split_items(items: Vec<SourceItem>) -> (r: (Vec<StructInput>, Vec<FnItem>))
    ensures
        r.0@ == structs_of(items@),
        r.1@ == fns_of(items@),
{
    let ghost orig = items@;
    assert(orig.len() == items.len());
    let mut items = items;
    let mut structs: Vec<StructInput> = Vec::new();
    let mut fns: Vec<FnItem> = Vec::new();
    let mut k: usize = 0;
    assert(orig.subrange(0, 0) =~= Seq::<SourceItem>::empty());
    while items.len() > 0
        invariant
            k <= orig.len(),
            orig.len() <= usize::MAX,
            items@ == orig.subrange(k as int, orig.len() as int),
            structs@ == structs_of(orig.subrange(0, k as int)),
            fns@ == fns_of(orig.subrange(0, k as int)),
        decreases items.len(),
    {
        let ghost now = orig.subrange(0, k + 1);
        assert(now.drop_last() =~= orig.subrange(0, k as int));
        let item = items.remove(0);
        assert(now.last() == item);
        match item {
            SourceItem::Struct(st) => {
                structs.push(st);
            },
            SourceItem::Fn(f) => {
                fns.push(f);
            },
            SourceItem::Other => {},
        }
        k = k + 1;
    }
    assert(orig.subrange(0, k as int) =~= orig);
    (structs, fns)
}

/// The error of a schema file that does not parse.
pub open spec fn unparsed_message(path: Seq<char>, message: Seq<char>) -> Seq<char> {
    "Failed to parse "@ + path + ": "@ + message
}

/// Parse one schema source file, found at `path`, into the entities it
/// declares: the structs that derive `OntologyEntity`, in file order; the
/// parser's error, or the first failing struct's, fails the file.
pub fn parse_schema_source(source: &str, path: &str) -> (r: Result<Vec<EntityDef>, String>)
    ensures
        match syn_items(source@) {
            Err(m) => r matches Err(e) && e@ == unparsed_message(path@, m),
            Ok(items) => schema_items_outcome(r, structs_of(items), path@),
        },
{
    match parse_source_items(source) {
        Err(m) => {
            let mut e = String::from_str("Failed to parse ");
            e.append(path);
            e.append(": ");
            e.append(m.as_str());
            proof {
                reveal_strlit("Failed to parse ");
                reveal_strlit(": ");
            }
            Err(e)
        },
        Ok(items) => {
            let (structs, _) = split_items(items);
            parse_schema_items(&structs, path)
        },
    }
}

/// The function items of a source text, when it parses.
pub open spec fn parsed_fns(source: Seq<char>) -> Option<Seq<FnItem>> {
    match syn_items(source) {
        Ok(items) => Some(fns_of(items)),
        Err(_) => None,
    }
}

/// Scan one API source file: `file` is its path as written in records,
/// `file_stem` its stem and `source` its text. A file that does not parse
/// gives no module and no records, as `mod.rs` and opted-out files do;
/// otherwise its functions are scanned as [`parse_api_source`] states.
pub fn parse_api_file(
    file: &str,
    file_stem: &str,
    source: &str,
    state_type: &str,
    store_type: Option<&str>,
) -> (r: ModuleParseResult)
    ensures
        api_source_outcome(r, file@, file_stem@, source@, parsed_fns(source@), state_type@, store_view(store_type)),
{
    let items = match parse_source_items(source) {
        Ok(items) => {
            let (_, fns) = split_items(items);
            Some(fns)
        },
        Err(_) => None,
    };
    parse_api_source(file, file_stem, source, items, state_type, store_type)
}

} // verus!
