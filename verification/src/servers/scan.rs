//! The decisions made while scanning a service API source file: which
//! `pub fn`s become API functions or event streams, which are dropped and
//! why, and what each kept function records.

use vstd::prelude::*;

use crate::attrs::{path_ends_with, path_is, path_is_ident, path_last_is, AttrInfo, AttrMeta, MetaItem};
use crate::servers::parse::{
    ApiFn, ApiModule, EventFn, ForcedMethod, GenericArg, Param, PathArgs, TypeAst, DEFAULT_STORE_ACCESSOR,
};
use crate::servers::parse::{has_singleton_marker, has_skip_marker, header_has_marker, lines};
use crate::servers::types::{normalize_spaces, normalize_spaces_spec};
use crate::text::{contains, join, owned, str_contains, str_eq, trim, trim_exec};

verus! {

// ─── Function items ─────────────────────────────────────────────────────────

/// One input of a function signature.
#[derive(Debug)]
pub enum FnInput {
    /// `self`, `&self` or `&mut self`.
    Receiver,
    /// A typed input.
    Typed {
        /// The binding's identifier; empty for other patterns.
        name: String,
        /// The type's tokens as written out by the token printer.
        tokens: String,
        /// The type's syntax.
        ty: TypeAst,
    },
}

/// A free function item of an API source file.
#[derive(Debug)]
pub struct FnItem {
    /// Function name.
    pub name: String,
    /// Declared `pub`.
    pub is_pub: bool,
    /// Declared `async`.
    pub is_async: bool,
    /// Outer attributes, in order.
    pub attrs: Vec<AttrInfo>,
    /// Inputs, in order.
    pub inputs: Vec<FnInput>,
    /// The return type, if one is written.
    pub output: Option<TypeAst>,
    /// The tokens of each generic argument of the return type's last path
    /// segment, in order; none when it has no angle brackets.
    pub ret_arg_tokens: Vec<String>,
}

// ─── Attribute-driven flags ─────────────────────────────────────────────────

/// A path or list attribute whose path ends in `id`.
pub open spec fn is_marker(a: AttrInfo, id: Seq<char>) -> bool {
    (a.meta is Path || a.meta is List) && path_ends_with(a.path@, id)
}

/// Some attribute is the `stateless` marker.
pub open spec fn stateless_spec(attrs: Seq<AttrInfo>) -> bool {
    exists|i: int| 0 <= i < attrs.len() && is_marker(#[trigger] attrs[i], "stateless"@)
}

/// The HTTP method the first `post`/`get` marker forces.
pub open spec fn force_method_spec(attrs: Seq<AttrInfo>) -> Option<ForcedMethod>
    decreases attrs.len(),
{
    if attrs.len() == 0 {
        None
    } else if is_marker(attrs[0], "post"@) {
        Some(ForcedMethod::Post)
    } else if is_marker(attrs[0], "get"@) {
        Some(ForcedMethod::Get)
    } else {
        force_method_spec(attrs.subrange(1, attrs.len() as int))
    }
}

/// The trimmed texts of the `doc` attributes, in order.
pub open spec fn doc_parts(attrs: Seq<AttrInfo>) -> Seq<Seq<char>>
    decreases attrs.len(),
{
    if attrs.len() == 0 {
        Seq::empty()
    } else {
        let rest = doc_parts(attrs.subrange(0, attrs.len() - 1));
        let a = attrs[attrs.len() - 1];
        match a.meta {
            AttrMeta::NameValue(Some(s)) => if path_is(a.path@, "doc"@) {
                rest.push(trim(s@))
            } else {
                rest
            },
            _ => rest,
        }
    }
}

/// The doc text of a function: its doc lines, trimmed, joined by spaces.
pub open spec fn doc_spec(attrs: Seq<AttrInfo>) -> Seq<char> {
    join(doc_parts(attrs), " "@)
}

/// Whether any attribute is the `stateless` marker.
pub fn has_stateless_attr(attrs: &Vec<AttrInfo>) -> (b: bool)
    ensures
        b == stateless_spec(attrs@),
{
    let mut i: usize = 0;
    while i < attrs.len()
        invariant
            i <= attrs.len(),
            forall|j: int| 0 <= j < i ==> !is_marker(#[trigger] attrs@[j], "stateless"@),
        decreases attrs.len() - i,
    {
        let a = &attrs[i];
        let form_ok = match &a.meta {
            AttrMeta::Path => true,
            AttrMeta::List(_) => true,
            AttrMeta::NameValue(_) => false,
        };
        if form_ok && path_last_is(&a.path, "stateless") {
            return true;
        }
        i = i + 1;
    }
    false
}

/// The HTTP method forced by the first `post` or `get` marker attribute.
pub fn parse_force_method(attrs: &Vec<AttrInfo>) -> (r: Option<ForcedMethod>)
    ensures
        r == force_method_spec(attrs@),
{
    let mut i: usize = 0;
    assert(attrs@.subrange(0, attrs@.len() as int) =~= attrs@);
    while i < attrs.len()
        invariant
            i <= attrs.len(),
            force_method_spec(attrs@) == force_method_spec(attrs@.subrange(i as int, attrs@.len() as int)),
        decreases attrs.len() - i,
    {
        let ghost t = attrs@.subrange(i as int, attrs@.len() as int);
        assert(t[0] == attrs@[i as int]);
        assert(t.subrange(1, t.len() as int) =~= attrs@.subrange(i + 1, attrs@.len() as int));
        let a = &attrs[i];
        let form_ok = match &a.meta {
            AttrMeta::Path => true,
            AttrMeta::List(_) => true,
            AttrMeta::NameValue(_) => false,
        };
        if form_ok && path_last_is(&a.path, "post") {
            return Some(ForcedMethod::Post);
        }
        if form_ok && path_last_is(&a.path, "get") {
            return Some(ForcedMethod::Get);
        }
        i = i + 1;
    }
    None
}

/// The doc text of a function's attributes.
pub fn doc_text(attrs: &Vec<AttrInfo>) -> (r: String)
    ensures
        r@ == doc_spec(attrs@),
{
    let mut r = String::new();
    let mut count: usize = 0;
    let mut i: usize = 0;
    while i < attrs.len()
        invariant
            i <= attrs.len(),
            count <= i,
            count == doc_parts(attrs@.subrange(0, i as int)).len(),
            r@ == join(doc_parts(attrs@.subrange(0, i as int)), " "@),
        decreases attrs.len() - i,
    {
        let ghost before = doc_parts(attrs@.subrange(0, i as int));
        assert(attrs@.subrange(0, i + 1).subrange(0, i as int) =~= attrs@.subrange(0, i as int));
        let a = &attrs[i];
        match &a.meta {
            AttrMeta::NameValue(Some(s)) => {
                if path_is_ident(&a.path, "doc") {
                    let t = trim_exec(s.as_str());
                    if count > 0 {
                        r.append(" ");
                    }
                    r.append(t.as_str());
                    proof {
                        reveal_strlit(" ");
                        let now = before.push(t@);
                        assert(now.drop_last() =~= before);
                        if count == 0 {
                            assert(before.len() == 0);
                            assert(r@ =~= join(now, " "@));
                        }
                    }
                    count = count + 1;
                }
            },
            _ => {},
        }
        i = i + 1;
    }
    assert(attrs@.subrange(0, attrs@.len() as int) =~= attrs@);
    r
}

// ─── `#[ontogen(...)]` ──────────────────────────────────────────────────────

/// What the `#[ontogen(...)]` attributes of a function say.
#[derive(Debug, Clone, PartialEq, Eq)]
pub enum OntogenAttr {
    /// No `#[ontogen(...)]` attribute.
    Absent,
    /// `rename = "value"` with a string literal.
    Rename(String),
    /// An `ontogen` attribute with directives not yet recognized.
    OtherDirective,
    /// A `rename` whose value is not a string literal, or arguments that do
    /// not parse.
    InvalidValue,
}

/// `acc`, marked as having seen an `ontogen` attribute.
pub open spec fn seen(acc: OntogenAttr) -> OntogenAttr {
    if acc is Absent {
        OntogenAttr::OtherDirective
    } else {
        acc
    }
}

/// The outcome of the nested items of one `#[ontogen(...)]`, from `acc`.
pub open spec fn rename_items(items: Seq<MetaItem>, acc: OntogenAttr) -> OntogenAttr
    decreases items.len(),
{
    if items.len() == 0 {
        acc
    } else {
        let rest = items.subrange(1, items.len() as int);
        match items[0] {
            MetaItem::NameValue(p, v) => if path_is(p@, "rename"@) {
                match v {
                    Some(s) => rename_items(rest, OntogenAttr::Rename(s)),
                    None => OntogenAttr::InvalidValue,
                }
            } else {
                rename_items(rest, seen(acc))
            },
            _ => rename_items(rest, seen(acc)),
        }
    }
}

/// The outcome of a function's attributes, from `acc`.
pub open spec fn ontogen_attr_spec(attrs: Seq<AttrInfo>, acc: OntogenAttr) -> OntogenAttr
    decreases attrs.len(),
{
    if attrs.len() == 0 {
        acc
    } else {
        let rest = attrs.subrange(1, attrs.len() as int);
        let a = attrs[0];
        if !path_is(a.path@, "ontogen"@) {
            ontogen_attr_spec(rest, acc)
        } else {
            match a.meta {
                AttrMeta::List(None) => OntogenAttr::InvalidValue,
                AttrMeta::List(Some(items)) => {
                    let r = rename_items(items@, acc);
                    if r is InvalidValue {
                        r
                    } else {
                        ontogen_attr_spec(rest, r)
                    }
                },
                _ => ontogen_attr_spec(rest, seen(acc)),
            }
        }
    }
}

fn step_items(items: &Vec<MetaItem>, acc: OntogenAttr) -> (r: OntogenAttr)
    requires
        !(acc is InvalidValue),
    ensures
        r == rename_items(items@, acc),
{
    let mut cur = acc;
    let mut i: usize = 0;
    assert(items@.subrange(0, items@.len() as int) =~= items@);
    while i < items.len()
        invariant
            i <= items.len(),
            !(cur is InvalidValue),
            rename_items(items@, acc) == rename_items(items@.subrange(i as int, items@.len() as int), cur),
        decreases items.len() - i,
    {
        let ghost t = items@.subrange(i as int, items@.len() as int);
        assert(t[0] == items@[i as int]);
        assert(t.subrange(1, t.len() as int) =~= items@.subrange(i + 1, items@.len() as int));
        match &items[i] {
            MetaItem::NameValue(p, v) => {
                if path_is_ident(p, "rename") {
                    match v {
                        Some(s) => {
                            cur = OntogenAttr::Rename(s.clone());
                        },
                        None => {
                            assert(t[0] matches MetaItem::NameValue(pp, vv) && pp == *p && vv is None);
                            assert(rename_items(t, cur) == OntogenAttr::InvalidValue);
                            return OntogenAttr::InvalidValue;
                        },
                    }
                } else {
                    cur = match cur {
                        OntogenAttr::Absent => OntogenAttr::OtherDirective,
                        other => other,
                    };
                }
            },
            _ => {
                cur = match cur {
                    OntogenAttr::Absent => OntogenAttr::OtherDirective,
                    other => other,
                };
            },
        }
        i = i + 1;
    }
    cur
}

/// Walk the attributes for `#[ontogen(rename = "...")]`.
///
/// Unknown directives are tolerated; a `rename` whose value is not a
/// string literal, or arguments that do not parse, give `InvalidValue`.
pub fn parse_ontogen_rename(attrs: &Vec<AttrInfo>) -> (r: OntogenAttr)
    ensures
        r == ontogen_attr_spec(attrs@, OntogenAttr::Absent),
{
    let mut acc = OntogenAttr::Absent;
    let mut i: usize = 0;
    assert(attrs@.subrange(0, attrs@.len() as int) =~= attrs@);
    while i < attrs.len()
        invariant
            i <= attrs.len(),
            !(acc is InvalidValue),
            ontogen_attr_spec(attrs@, OntogenAttr::Absent) == ontogen_attr_spec(
                attrs@.subrange(i as int, attrs@.len() as int),
                acc,
            ),
        decreases attrs.len() - i,
    {
        let ghost t = attrs@.subrange(i as int, attrs@.len() as int);
        assert(t[0] == attrs@[i as int]);
        assert(t.subrange(1, t.len() as int) =~= attrs@.subrange(i + 1, attrs@.len() as int));
        let a = &attrs[i];
        if path_is_ident(&a.path, "ontogen") {
            match &a.meta {
                AttrMeta::List(None) => {
                    return OntogenAttr::InvalidValue;
                },
                AttrMeta::List(Some(items)) => {
                    let r = step_items(items, acc);
                    match r {
                        OntogenAttr::InvalidValue => {
                            return OntogenAttr::InvalidValue;
                        },
                        _ => {
                            acc = r;
                        },
                    }
                },
                _ => {
                    acc = match acc {
                        OntogenAttr::Absent => OntogenAttr::OtherDirective,
                        other => other,
                    };
                },
            }
        }
        i = i + 1;
    }
    acc
}

// ─── Return types ───────────────────────────────────────────────────────────

/// The return type is a path whose last segment is `Receiver`.
pub open spec fn is_receiver_spec(output: Option<TypeAst>) -> bool {
    match output {
        Some(TypeAst::Path(tp)) => tp.segments@.len() > 0 && tp.segments@.last().ident@ == "Receiver"@,
        _ => false,
    }
}

/// The `T` of a `Result<T, E>` return type.
pub open spec fn ok_type_spec(output: Option<TypeAst>) -> Option<TypeAst> {
    match output {
        Some(TypeAst::Path(tp)) => if tp.segments@.len() > 0 && tp.segments@.last().ident@ == "Result"@ {
            match tp.segments@.last().args {
                PathArgs::AngleBracketed(v) => if v@.len() > 0 {
                    match v@[0] {
                        GenericArg::Type(t) => Some(t),
                        GenericArg::Other => None,
                    }
                } else {
                    None
                },
                _ => None,
            }
        } else {
            None
        },
        _ => None,
    }
}

/// Check if the return type is `broadcast::Receiver<T>` or `Receiver<T>`.
pub fn is_receiver_return_type(output: &Option<TypeAst>) -> (b: bool)
    ensures
        b == is_receiver_spec(*output),
{
    match output {
        Some(TypeAst::Path(tp)) => tp.segments.len() > 0 && str_eq(
            tp.segments[tp.segments.len() - 1].ident.as_str(),
            "Receiver",
        ),
        _ => false,
    }
}

/// The first of a list of token strings; empty when there is none.
pub open spec fn first_tokens(ts: Seq<String>) -> Seq<char> {
    if ts.len() > 0 {
        ts[0]@
    } else {
        Seq::empty()
    }
}

/// Extract `T` from `Result<T, E>` as a normalized string (from the tokens
/// of the return type's generic arguments, of which `T` is the first) and
/// as syntax; the unit type `()` for any other return type.
pub fn extract_result_ok_type(output: Option<TypeAst>, arg_tokens: &Vec<String>) -> (r: (String, TypeAst))
    ensures
        match ok_type_spec(output) {
            Some(t) => r.0@ == normalize_spaces_spec(first_tokens(arg_tokens@)) && r.1 == t,
            None => r.0@ == "()"@ && (r.1 matches TypeAst::Tuple(v) && v@.len() == 0),
        },
{
    match output {
        Some(TypeAst::Path(tp)) => {
            let mut segs = tp.segments;
            let n = segs.len();
            if n > 0 && str_eq(segs[n - 1].ident.as_str(), "Result") {
                let last = segs.pop().unwrap();
                match last.args {
                    PathArgs::AngleBracketed(mut v) => {
                        if v.len() > 0 {
                            let first = v.remove(0);
                            match first {
                                GenericArg::Type(t) => {
                                    let first: &str = if arg_tokens.len() > 0 {
                                        arg_tokens[0].as_str()
                                    } else {
                                        ""
                                    };
                                    proof {
                                        reveal_strlit("");
                                    }
                                    return (normalize_spaces(first), t);
                                },
                                GenericArg::Other => {},
                            }
                        }
                    },
                    _ => {},
                }
            }
        },
        _ => {},
    }
    (owned("()"), TypeAst::unit())
}

// ─── Skip records ───────────────────────────────────────────────────────────

/// Why the scanner dropped a `pub fn`.
#[derive(Debug, Clone, PartialEq, Eq)]
pub enum SkipReason {
    /// The first parameter's normalized type contains neither the state
    /// type nor the store type.
    FirstParamMismatch {
        /// Normalized first-parameter type.
        first_param_ty: String,
        /// The state type searched for.
        state_type: String,
        /// The store type searched for, if any.
        store_type: Option<String>,
    },
    /// The first parameter is `self` or `&self`.
    SelfReceiver,
    /// The function has no parameters.
    NoParams,
    /// `#[ontogen(rename = ...)]` with a value that is not a string literal.
    InvalidRenameValue,
}

/// A `pub fn` the scanner dropped, with where and why.
#[derive(Debug, Clone, PartialEq, Eq)]
pub struct SkipRecord {
    /// Source file the function was declared in.
    pub file: String,
    /// Function name.
    pub fn_name: String,
    /// Why it was dropped.
    pub reason: SkipReason,
}

/// The warning text of a skip record.
pub open spec fn skip_message_spec(r: SkipRecord) -> Seq<char> {
    let head = "ontogen: skipped fn `"@ + r.fn_name@ + "` in `"@ + r.file@ + "` - "@;
    match r.reason {
        SkipReason::FirstParamMismatch { first_param_ty, state_type, store_type } => head + "first param `"@
            + first_param_ty@ + "` does not match state_type '"@ + state_type@ + "'"@ + match store_type {
            Some(s) => " or store_type '"@ + s@ + "'"@,
            None => Seq::empty(),
        } + "; add `#[ontogen::stateless]` if this fn intentionally takes no state"@,
        SkipReason::SelfReceiver => head + "first param is `self`/`&self`"@,
        SkipReason::NoParams => head
            + "fn has no parameters; add `#[ontogen::stateless]` if this fn intentionally takes no state"@,
        SkipReason::InvalidRenameValue => head + "`#[ontogen(rename = ...)]` value must be a string literal"@,
    }
}

impl SkipRecord {
    /// The warning text of the record.
    pub fn message(&self) -> (m: String)
        ensures
            m@ == skip_message_spec(*self),
    {
        let mut m = String::from_str("ontogen: skipped fn `");
        m.append(self.fn_name.as_str());
        m.append("` in `");
        m.append(self.file.as_str());
        m.append("` - ");
        match &self.reason {
            SkipReason::FirstParamMismatch { first_param_ty, state_type, store_type } => {
                m.append("first param `");
                m.append(first_param_ty.as_str());
                m.append("` does not match state_type '");
                m.append(state_type.as_str());
                m.append("'");
                match store_type {
                    Some(s) => {
                        m.append(" or store_type '");
                        m.append(s.as_str());
                        m.append("'");
                    },
                    None => {},
                }
                m.append("; add `#[ontogen::stateless]` if this fn intentionally takes no state");
            },
            SkipReason::SelfReceiver => {
                m.append("first param is `self`/`&self`");
            },
            SkipReason::NoParams => {
                m.append("fn has no parameters; add `#[ontogen::stateless]` if this fn intentionally takes no state");
            },
            SkipReason::InvalidRenameValue => {
                m.append("`#[ontogen(rename = ...)]` value must be a string literal");
            },
        }
        m
    }
}

// ─── Classifying function items ─────────────────────────────────────────────

/// What the scanner makes of one function item.
pub enum ItemKind {
    /// Not `pub`: passed over silently.
    NotPublic,
    /// Dropped with a skip record: no parameters.
    NoParams,
    /// Dropped with a skip record: a `self` receiver first.
    SelfReceiver,
    /// Dropped with a skip record: the first parameter names neither the
    /// state nor the store type.
    Mismatch,
    /// Kept as an event stream.
    Event,
    /// Dropped with a skip record: an invalid rename value.
    InvalidRename,
    /// Kept as an API function; the flag is whether its first parameter is
    /// the store.
    Function(bool),
}

/// The normalized type of a typed input; empty for a receiver.
pub open spec fn input_norm(i: FnInput) -> Seq<char> {
    match i {
        FnInput::Typed { tokens, .. } => normalize_spaces_spec(tokens@),
        FnInput::Receiver => Seq::empty(),
    }
}

/// What the scanner makes of `item`.
pub open spec fn item_kind(item: FnItem, state: Seq<char>, store: Option<Seq<char>>) -> ItemKind {
    let stateless = stateless_spec(item.attrs@);
    let ins = item.inputs@;
    if !item.is_pub {
        ItemKind::NotPublic
    } else if stateless && ins.len() > 0 && ins[0] is Receiver {
        ItemKind::SelfReceiver
    } else if !stateless && ins.len() == 0 {
        ItemKind::NoParams
    } else if !stateless && ins[0] is Receiver {
        ItemKind::SelfReceiver
    } else if !stateless && !contains(input_norm(ins[0]), state) && !(store matches Some(st) && contains(
        input_norm(ins[0]),
        st,
    )) {
        ItemKind::Mismatch
    } else if is_receiver_spec(item.output) {
        ItemKind::Event
    } else if ontogen_attr_spec(item.attrs@, OntogenAttr::Absent) is InvalidValue {
        ItemKind::InvalidRename
    } else {
        ItemKind::Function(!stateless && !contains(input_norm(ins[0]), state))
    }
}

/// The kind drops the item with a skip record.
pub open spec fn is_skip_kind(k: ItemKind) -> bool {
    k is NoParams || k is SelfReceiver || k is Mismatch || k is InvalidRename
}

/// The parameters a function keeps from its inputs: every typed input, in
/// order, each as its name, normalized type and syntax.
pub open spec fn params_match(ps: Seq<Param>, ins: Seq<FnInput>) -> bool
    decreases ins.len(),
{
    if ins.len() == 0 {
        ps.len() == 0
    } else {
        match ins.last() {
            FnInput::Typed { name, tokens, ty } => ps.len() > 0 && params_match(ps.drop_last(), ins.drop_last())
                && ps.last().name == name && ps.last().ty@ == normalize_spaces_spec(tokens@) && ps.last().ty_ast
                == ty,
            FnInput::Receiver => params_match(ps, ins.drop_last()),
        }
    }
}

/// The command override an `#[ontogen(...)]` outcome gives.
pub open spec fn override_of(o: OntogenAttr) -> Option<String> {
    match o {
        OntogenAttr::Rename(s) => Some(s),
        _ => None,
    }
}

/// `f` is the API function the scanner builds from `item`.
pub open spec fn fn_matches(f: ApiFn, item: FnItem, is_store: bool) -> bool {
    let stateless = stateless_spec(item.attrs@);
    let skip: int = if stateless {
        0
    } else {
        1
    };
    &&& f.name == item.name
    &&& f.is_async == item.is_async
    &&& f.doc@ == doc_spec(item.attrs@)
    &&& params_match(f.params@, item.inputs@.subrange(skip, item.inputs@.len() as int))
    &&& match ok_type_spec(item.output) {
        Some(t) => f.return_type@ == normalize_spaces_spec(first_tokens(item.ret_arg_tokens@)) && f.return_type_ast == t,
        None => f.return_type@ == "()"@ && (f.return_type_ast matches TypeAst::Tuple(v) && v@.len() == 0),
    }
    &&& f.first_param_is_store == is_store
    &&& f.is_stateless == stateless
    &&& f.force_method == force_method_spec(item.attrs@)
    &&& f.command_override == override_of(ontogen_attr_spec(item.attrs@, OntogenAttr::Absent))
    &&& f.surface == 0
    &&& f.store_accessor@ == DEFAULT_STORE_ACCESSOR@
}

/// `r` is the skip record the scanner writes for `item`, of kind `k`.
pub open spec fn skip_matches(
    r: SkipRecord,
    item: FnItem,
    k: ItemKind,
    file: Seq<char>,
    state: Seq<char>,
    store: Option<Seq<char>>,
) -> bool {
    &&& r.file@ == file
    &&& r.fn_name == item.name
    &&& match k {
        ItemKind::NoParams => r.reason is NoParams,
        ItemKind::SelfReceiver => r.reason is SelfReceiver,
        ItemKind::InvalidRename => r.reason is InvalidRenameValue,
        ItemKind::Mismatch => match r.reason {
            SkipReason::FirstParamMismatch { first_param_ty, state_type, store_type } => {
                &&& first_param_ty@ == input_norm(item.inputs@[0])
                &&& state_type@ == state
                &&& match store_type {
                    Some(s) => store == Some(s@),
                    None => store is None,
                }
            },
            _ => false,
        },
        _ => false,
    }
}

/// The outcome of scanning one function item.
pub enum ItemOutcome {
    /// Passed over.
    Ignored,
    /// Dropped, with its record.
    Skipped(SkipRecord),
    /// An event stream.
    Event(EventFn),
    /// An API function.
    Function(ApiFn),
}

/// `o` is the outcome the scanner gives `item`.
pub open spec fn outcome_matches(
    o: ItemOutcome,
    item: FnItem,
    file: Seq<char>,
    state: Seq<char>,
    store: Option<Seq<char>>,
) -> bool {
    let k = item_kind(item, state, store);
    match o {
        ItemOutcome::Ignored => k is NotPublic,
        ItemOutcome::Skipped(r) => is_skip_kind(k) && skip_matches(r, item, k, file, state, store),
        ItemOutcome::Event(e) => k is Event && e.name == item.name && e.surface == 0,
        ItemOutcome::Function(f) => match k {
            ItemKind::Function(is_store) => fn_matches(f, item, is_store),
            _ => false,
        },
    }
}

fn opt_owned(s: Option<&str>) -> (r: Option<String>)
    ensures
        match s {
            Some(x) => r matches Some(y) && y@ == x@,
            None => r is None,
        },
{
    match s {
        Some(x) => Some(owned(x)),
        None => None,
    }
}

/// The parameters kept from `inputs` after the first `skip`.
fn build_params(inputs: Vec<FnInput>, skip: usize) -> (ps: Vec<Param>)
    requires
        skip <= inputs@.len(),
    ensures
        params_match(ps@, inputs@.subrange(skip as int, inputs@.len() as int)),
{
    let ghost orig = inputs@;
    assert(orig.len() == inputs.len());
    let mut inputs = inputs;
    let mut ps: Vec<Param> = Vec::new();
    let mut k: usize = 0;
    while k < skip
        invariant
            k <= skip <= orig.len(),
            orig.len() <= usize::MAX,
            inputs@ == orig.subrange(k as int, orig.len() as int),
        decreases skip - k,
    {
        inputs.remove(0);
        k = k + 1;
    }
    let ghost start = k;
    assert(orig.subrange(start as int, start as int) =~= Seq::<FnInput>::empty());
    while inputs.len() > 0
        invariant
            start == skip,
            start <= k <= orig.len(),
            orig.len() <= usize::MAX,
            inputs@ == orig.subrange(k as int, orig.len() as int),
            params_match(ps@, orig.subrange(start as int, k as int)),
        decreases inputs.len(),
    {
        let ghost seg = orig.subrange(start as int, k + 1);
        assert(seg.drop_last() =~= orig.subrange(start as int, k as int));
        assert(seg.last() == orig[k as int]);
        let input = inputs.remove(0);
        match input {
            FnInput::Typed { name, tokens, ty } => {
                let ghost before = ps@;
                ps.push(Param { name, ty: normalize_spaces(tokens.as_str()), ty_ast: ty });
                assert(ps@.drop_last() =~= before);
            },
            FnInput::Receiver => {},
        }
        k = k + 1;
    }
    ps
}

/// Decide what the scanner makes of one function item of `file`.
pub fn classify_item(item: FnItem, file: &str, state_type: &str, store_type: Option<&str>) -> (o: ItemOutcome)
    ensures
        outcome_matches(
            o,
            item,
            file@,
            state_type@,
            match store_type {
                Some(s) => Some(s@),
                None => None,
            },
        ),
{
    let ghost store = match store_type {
        Some(s) => Some(s@),
        None => None::<Seq<char>>,
    };
    let ghost k = item_kind(item, state_type@, store);
    if !item.is_pub {
        return ItemOutcome::Ignored;
    }
    let is_stateless = has_stateless_attr(&item.attrs);
    let force_method = parse_force_method(&item.attrs);
    let n = item.inputs.len();
    let is_store = if is_stateless {
        if n > 0 {
            match &item.inputs[0] {
                FnInput::Receiver => {
                    return ItemOutcome::Skipped(
                        SkipRecord { file: owned(file), fn_name: item.name, reason: SkipReason::SelfReceiver },
                    );
                },
                _ => {},
            }
        }
        false
    } else {
        if n == 0 {
            return ItemOutcome::Skipped(
                SkipRecord { file: owned(file), fn_name: item.name, reason: SkipReason::NoParams },
            );
        }
        match &item.inputs[0] {
            FnInput::Receiver => {
                return ItemOutcome::Skipped(
                    SkipRecord { file: owned(file), fn_name: item.name, reason: SkipReason::SelfReceiver },
                );
            },
            FnInput::Typed { tokens, .. } => {
                let ty = normalize_spaces(tokens.as_str());
                if str_contains(ty.as_str(), state_type) {
                    false
                } else {
                    let store_hit = match store_type {
                        Some(st) => str_contains(ty.as_str(), st),
                        None => false,
                    };
                    if store_hit {
                        true
                    } else {
                        let reason = SkipReason::FirstParamMismatch {
                            first_param_ty: ty,
                            state_type: owned(state_type),
                            store_type: opt_owned(store_type),
                        };
                        return ItemOutcome::Skipped(
                            SkipRecord { file: owned(file), fn_name: item.name, reason },
                        );
                    }
                }
            },
        }
    };
    let doc = doc_text(&item.attrs);
    if is_receiver_return_type(&item.output) {
        return ItemOutcome::Event(EventFn { name: item.name, surface: 0 });
    }
    let rename = parse_ontogen_rename(&item.attrs);
    let command_override = match rename {
        OntogenAttr::Rename(v) => Some(v),
        OntogenAttr::InvalidValue => {
            return ItemOutcome::Skipped(
                SkipRecord { file: owned(file), fn_name: item.name, reason: SkipReason::InvalidRenameValue },
            );
        },
        _ => None,
    };
    let skip_first: usize = if is_stateless {
        0
    } else {
        1
    };
    let params = build_params(item.inputs, skip_first);
    let (return_type, return_type_ast) = extract_result_ok_type(item.output, &item.ret_arg_tokens);
    ItemOutcome::Function(
        ApiFn {
            name: item.name,
            is_async: item.is_async,
            doc,
            params,
            return_type,
            return_type_ast,
            first_param_is_store: is_store,
            is_stateless,
            force_method,
            command_override,
            surface: 0,
            store_accessor: owned(DEFAULT_STORE_ACCESSOR),
        },
    )
}

// ─── Whole files ────────────────────────────────────────────────────────────

/// The result of scanning one API source file.
#[derive(Debug)]
pub struct ModuleParseResult {
    /// The module, when the file was scanned.
    pub module: Option<ApiModule>,
    /// The `pub fn`s dropped, with their reasons.
    pub skips: Vec<SkipRecord>,
}

/// The positions of the items kept as API functions.
pub open spec fn fn_indices(items: Seq<FnItem>, state: Seq<char>, store: Option<Seq<char>>) -> Seq<int>
    decreases items.len(),
{
    if items.len() == 0 {
        Seq::empty()
    } else {
        let rest = fn_indices(items.drop_last(), state, store);
        if item_kind(items.last(), state, store) is Function {
            rest.push(items.len() - 1)
        } else {
            rest
        }
    }
}

/// The positions of the items kept as event streams.
pub open spec fn event_indices(items: Seq<FnItem>, state: Seq<char>, store: Option<Seq<char>>) -> Seq<int>
    decreases items.len(),
{
    if items.len() == 0 {
        Seq::empty()
    } else {
        let rest = event_indices(items.drop_last(), state, store);
        if item_kind(items.last(), state, store) is Event {
            rest.push(items.len() - 1)
        } else {
            rest
        }
    }
}

/// The positions of the items dropped with a skip record.
pub open spec fn skip_indices(items: Seq<FnItem>, state: Seq<char>, store: Option<Seq<char>>) -> Seq<int>
    decreases items.len(),
{
    if items.len() == 0 {
        Seq::empty()
    } else {
        let rest = skip_indices(items.drop_last(), state, store);
        if is_skip_kind(item_kind(items.last(), state, store)) {
            rest.push(items.len() - 1)
        } else {
            rest
        }
    }
}

/// The functions, events and skip records are those the scanner makes of
/// `items`, in item order.
pub open spec fn scanned_from(
    functions: Seq<ApiFn>,
    events: Seq<EventFn>,
    skips: Seq<SkipRecord>,
    items: Seq<FnItem>,
    file: Seq<char>,
    state: Seq<char>,
    store: Option<Seq<char>>,
) -> bool {
    let fi = fn_indices(items, state, store);
    let ei = event_indices(items, state, store);
    let si = skip_indices(items, state, store);
    &&& functions.len() == fi.len()
    &&& forall|j: int|
        0 <= j < fi.len() ==> match item_kind(items[#[trigger] fi[j]], state, store) {
            ItemKind::Function(b) => fn_matches(functions[j], items[fi[j]], b),
            _ => false,
        }
    &&& events.len() == ei.len()
    &&& forall|j: int|
        0 <= j < ei.len() ==> events[j].name == items[#[trigger] ei[j]].name && events[j].surface == 0
    &&& skips.len() == si.len()
    &&& forall|j: int|
        0 <= j < si.len() ==> skip_matches(
            skips[j],
            items[#[trigger] si[j]],
            item_kind(items[si[j]], state, store),
            file,
            state,
            store,
        )
}

/// The store type as a view.
pub open spec fn store_view(store_type: Option<&str>) -> Option<Seq<char>> {
    match store_type {
        Some(s) => Some(s@),
        None => None,
    }
}

/// What scanning one API source file gives. `mod.rs`, files that opt out
/// with a `// ontogen:skip` marker, and files that do not parse give no
/// module and no records. Otherwise each item is scanned into a function,
/// an event, a skip record or nothing; the module, named by the stem and a
/// singleton when the file carries a `// ontogen:singleton` marker, is
/// given only when at least one function or event was accepted, and the
/// skip records are kept either way.
pub open spec fn api_source_outcome(
    r: ModuleParseResult,
    file: Seq<char>,
    file_stem: Seq<char>,
    source: Seq<char>,
    items: Option<Seq<FnItem>>,
    state: Seq<char>,
    store: Option<Seq<char>>,
) -> bool {
    if file_stem == "mod"@ || header_has_marker(lines(source), "skip"@) || items is None {
        r.module is None && r.skips@.len() == 0
    } else {
        let its = items->0;
        &&& (r.module is Some <==> (fn_indices(its, state, store).len() > 0 || event_indices(its, state, store).len()
            > 0))
        &&& match r.module {
            Some(m) => {
                &&& m.name@ == file_stem
                &&& m.is_singleton == header_has_marker(lines(source), "singleton"@)
                &&& scanned_from(m.functions@, m.events@, r.skips@, its, file, state, store)
            },
            None => scanned_from(Seq::empty(), Seq::empty(), r.skips@, its, file, state, store),
        }
    }
}

/// The function items as a sequence, when the text parsed.
pub open spec fn items_view(items: Option<Vec<FnItem>>) -> Option<Seq<FnItem>> {
    match items {
        Some(v) => Some(v@),
        None => None,
    }
}

/// Scan one API source file: `file` is its path as written in records,
/// `file_stem` its stem, `source` its text, and `items` its function items
/// (`None` when the text does not parse).
///
/// `mod.rs`, files that opt out with a `// ontogen:skip` marker, and files
/// that do not parse give no module and no records. Otherwise the module,
/// named by the stem and a singleton when the file carries a
/// `// ontogen:singleton` marker, holds what the scanner makes of each
/// item, and is given only when it holds a function or an event.
pub fn parse_api_source(
    file: &str,
    file_stem: &str,
    source: &str,
    items: Option<Vec<FnItem>>,
    state_type: &str,
    store_type: Option<&str>,
) -> (r: ModuleParseResult)
    ensures
        api_source_outcome(r, file@, file_stem@, source@, items_view(items), state_type@, store_view(store_type)),
{
    if str_eq(file_stem, "mod") {
        return ModuleParseResult { module: None, skips: Vec::new() };
    }
    if has_skip_marker(source) {
        return ModuleParseResult { module: None, skips: Vec::new() };
    }
    let is_singleton = has_singleton_marker(source);
    let items = match items {
        Some(v) => v,
        None => {
            return ModuleParseResult { module: None, skips: Vec::new() };
        },
    };
    let ghost orig = items@;
    let ghost store = store_view(store_type);
    assert(orig.len() == items.len());
    let mut items = items;
    let mut functions: Vec<ApiFn> = Vec::new();
    let mut events: Vec<EventFn> = Vec::new();
    let mut skips: Vec<SkipRecord> = Vec::new();
    let mut k: usize = 0;
    assert(orig.subrange(0, 0) =~= Seq::<FnItem>::empty());
    while items.len() > 0
        invariant
            k <= orig.len(),
            orig.len() <= usize::MAX,
            items@ == orig.subrange(k as int, orig.len() as int),
            store == store_view(store_type),
            scanned_from(functions@, events@, skips@, orig.subrange(0, k as int), file@, state_type@, store),
        decreases items.len(),
    {
        let ghost pre = orig.subrange(0, k as int);
        let ghost now = orig.subrange(0, k + 1);
        assert(now.drop_last() =~= pre);
        assert(now.last() == orig[k as int]);
        assert forall|j: int| 0 <= j < k implies now[j] == pre[j] by {}
        let ghost fi = fn_indices(pre, state_type@, store);
        let ghost ei = event_indices(pre, state_type@, store);
        let ghost si = skip_indices(pre, state_type@, store);
        proof {
            lemma_indices_below(pre, state_type@, store);
        }
        let item = items.remove(0);
        let ghost kind = item_kind(item, state_type@, store);
        let outcome = classify_item(item, file, state_type, store_type);
        match outcome {
            ItemOutcome::Ignored => {},
            ItemOutcome::Skipped(rec) => {
                skips.push(rec);
            },
            ItemOutcome::Event(e) => {
                events.push(e);
            },
            ItemOutcome::Function(f) => {
                functions.push(f);
            },
        }
        proof {
            let fi2 = fn_indices(now, state_type@, store);
            let ei2 = event_indices(now, state_type@, store);
            let si2 = skip_indices(now, state_type@, store);
            assert forall|j: int| 0 <= j < fi2.len() implies match item_kind(
                now[#[trigger] fi2[j]],
                state_type@,
                store,
            ) {
                ItemKind::Function(b) => fn_matches(functions@[j], now[fi2[j]], b),
                _ => false,
            } by {
                if j < fi.len() {
                    assert(fi2[j] == fi[j]);
                    assert(now[fi[j]] == pre[fi[j]]);
                }
            }
            assert forall|j: int| 0 <= j < ei2.len() implies events@[j].name == now[#[trigger] ei2[j]].name
                && events@[j].surface == 0 by {
                if j < ei.len() {
                    assert(ei2[j] == ei[j]);
                    assert(now[ei[j]] == pre[ei[j]]);
                }
            }
            assert forall|j: int| 0 <= j < si2.len() implies skip_matches(
                skips@[j],
                now[#[trigger] si2[j]],
                item_kind(now[si2[j]], state_type@, store),
                file@,
                state_type@,
                store,
            ) by {
                if j < si.len() {
                    assert(si2[j] == si[j]);
                    assert(now[si[j]] == pre[si[j]]);
                }
            }
        }
        k = k + 1;
    }
    assert(orig.subrange(0, k as int) =~= orig);
    if functions.len() == 0 && events.len() == 0 {
        assert(functions@ =~= Seq::<ApiFn>::empty());
        assert(events@ =~= Seq::<EventFn>::empty());
        return ModuleParseResult { module: None, skips };
    }
    let name = owned(file_stem);
    ModuleParseResult {
        module: Some(ApiModule { name, functions, events, is_singleton }),
        skips,
    }
}

/// Every recorded position lies inside the items.
proof fn lemma_indices_below(items: Seq<FnItem>, state: Seq<char>, store: Option<Seq<char>>)
    ensures
        forall|j: int|
            0 <= j < fn_indices(items, state, store).len() ==> 0 <= #[trigger] fn_indices(items, state, store)[j]
                < items.len(),
        forall|j: int|
            0 <= j < event_indices(items, state, store).len() ==> 0 <= #[trigger] event_indices(
                items,
                state,
                store,
            )[j] < items.len(),
        forall|j: int|
            0 <= j < skip_indices(items, state, store).len() ==> 0 <= #[trigger] skip_indices(
                items,
                state,
                store,
            )[j] < items.len(),
    decreases items.len(),
{
    if items.len() > 0 {
        let d = items.drop_last();
        lemma_indices_below(d, state, store);
        let f = fn_indices(items, state, store);
        let fd = fn_indices(d, state, store);
        assert forall|j: int| 0 <= j < f.len() implies 0 <= #[trigger] f[j] < items.len() by {
            if j < fd.len() {
                assert(f[j] == fd[j]);
            }
        }
        let e = event_indices(items, state, store);
        let ed = event_indices(d, state, store);
        assert forall|j: int| 0 <= j < e.len() implies 0 <= #[trigger] e[j] < items.len() by {
            if j < ed.len() {
                assert(e[j] == ed[j]);
            }
        }
        let s = skip_indices(items, state, store);
        let sd = skip_indices(d, state, store);
        assert forall|j: int| 0 <= j < s.len() implies 0 <= #[trigger] s[j] < items.len() by {
            if j < sd.len() {
                assert(s[j] == sd[j]);
            }
        }
    }
}

} // verus!
