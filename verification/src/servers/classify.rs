//! Operation classification and parameter analysis.

use vstd::prelude::*;

use crate::ir::{OpKind, OpKindView};
use crate::naming::{plural_spec, pluralize};
use crate::servers::parse::{ApiFn, ForcedMethod, Param, PathArgs, TypeAst};
use crate::text::{chars_of, owned, replace_char, replace_char_exec, starts_with, str_eq, str_starts_with, string_of_range};

verus! {

/// Single-segment names the HTTP path extractor handles as a URL segment.
pub open spec fn is_id_like_spec(name: Seq<char>) -> bool {
    ||| name == "bool"@
    ||| name == "char"@
    ||| name == "i8"@
    ||| name == "i16"@
    ||| name == "i32"@
    ||| name == "i64"@
    ||| name == "i128"@
    ||| name == "isize"@
    ||| name == "u8"@
    ||| name == "u16"@
    ||| name == "u32"@
    ||| name == "u64"@
    ||| name == "u128"@
    ||| name == "usize"@
    ||| name == "f32"@
    ||| name == "f64"@
    ||| name == "String"@
    ||| name == "str"@
    ||| name == "Uuid"@
}

/// The parameter type carries a body (a JSON-extractable struct) rather
/// than fitting in a URL path segment or query string.
pub open spec fn wants_body_spec(ty: TypeAst) -> bool {
    let inner = match ty {
        TypeAst::Reference(b) => *b,
        _ => ty,
    };
    match inner {
        TypeAst::Path(tp) => {
            if tp.qualified || tp.segments@.len() > 1 {
                true
            } else if tp.segments@.len() == 0 {
                false
            } else {
                let seg = tp.segments@[0];
                if seg.ident@ == "Option"@ && seg.args is AngleBracketed {
                    false
                } else {
                    !is_id_like_spec(seg.ident@)
                }
            }
        },
        _ => false,
    }
}

/// The URL segment of a junction function's child: pluralized unless
/// already plural, snake_case turned kebab-case.
pub open spec fn child_segment_spec(suffix: Seq<char>, already_plural: bool) -> Seq<char> {
    replace_char(if already_plural { suffix } else { plural_spec(suffix) }, '_', '-')
}

/// The operation a function name and its parameters classify to.
pub open spec fn classify_spec(name: Seq<char>, params: Seq<Param>) -> OpKindView {
    if name == "list"@ {
        OpKindView::List
    } else if name == "get_by_id"@ {
        OpKindView::GetById
    } else if name == "create"@ {
        OpKindView::Create
    } else if name == "update"@ {
        OpKindView::Update
    } else if name == "delete"@ {
        OpKindView::Delete
    } else if starts_with(name, "add_"@) && params.len() == 2 {
        OpKindView::JunctionAdd(child_segment_spec(name.subrange("add_"@.len() as int, name.len() as int), false))
    } else if starts_with(name, "remove_"@) && params.len() == 2 {
        OpKindView::JunctionRemove(
            child_segment_spec(name.subrange("remove_"@.len() as int, name.len() as int), false),
        )
    } else if starts_with(name, "list_"@) && params.len() == 1 {
        OpKindView::JunctionList(child_segment_spec(name.subrange("list_"@.len() as int, name.len() as int), true))
    } else if params.len() == 0 {
        OpKindView::CustomGet
    } else if starts_with(name, "get_"@) {
        if wants_body_spec(params[0].ty_ast) {
            OpKindView::CustomPost
        } else {
            OpKindView::CustomGet
        }
    } else {
        OpKindView::CustomPost
    }
}

/// The operation a function classifies to: a forced method wins outright.
pub open spec fn classify_fn_spec(f: ApiFn) -> OpKindView {
    match f.force_method {
        Some(ForcedMethod::Post) => OpKindView::CustomPost,
        Some(ForcedMethod::Get) => OpKindView::CustomGet,
        None => classify_spec(f.name@, f.params@),
    }
}

/// The operation is routed as an HTTP `GET`.
pub open spec fn is_read_spec(op: OpKindView) -> bool {
    match op {
        OpKindView::List | OpKindView::GetById | OpKindView::CustomGet | OpKindView::JunctionList(_) => true,
        _ => false,
    }
}

/// Allowlist of single-segment ident names that the HTTP path-extractor
/// knows how to handle as a URL path segment.
pub fn is_id_like_primitive(name: &str) -> (b: bool)
    ensures
        b == is_id_like_spec(name@),
{
    str_eq(name, "bool") || str_eq(name, "char") || str_eq(name, "i8") || str_eq(name, "i16") || str_eq(
        name,
        "i32",
    ) || str_eq(name, "i64") || str_eq(name, "i128") || str_eq(name, "isize") || str_eq(name, "u8") || str_eq(
        name,
        "u16",
    ) || str_eq(name, "u32") || str_eq(name, "u64") || str_eq(name, "u128") || str_eq(name, "usize") || str_eq(
        name,
        "f32",
    ) || str_eq(name, "f64") || str_eq(name, "String") || str_eq(name, "str") || str_eq(name, "Uuid")
}

/// Returns true when the param type carries a body rather than fitting in
/// a URL path segment or query string.
pub fn first_param_wants_body(ty: &TypeAst) -> (b: bool)
    ensures
        b == wants_body_spec(*ty),
{
    let inner: &TypeAst = match ty {
        TypeAst::Reference(b) => b,
        _ => ty,
    };
    match inner {
        TypeAst::Path(tp) => {
            if tp.qualified || tp.segments.len() > 1 {
                return true;
            }
            if tp.segments.len() == 0 {
                return false;
            }
            let seg = &tp.segments[0];
            let is_angle = match &seg.args {
                PathArgs::AngleBracketed(_) => true,
                _ => false,
            };
            if str_eq(seg.ident.as_str(), "Option") && is_angle {
                return false;
            }
            !is_id_like_primitive(seg.ident.as_str())
        },
        _ => false,
    }
}

/// Derive the child URL segment from the function name suffix.
pub fn junction_child_segment(suffix: &str, already_plural: bool) -> (r: String)
    ensures
        r@ == child_segment_spec(suffix@, already_plural),
{
    let plural = if already_plural {
        owned(suffix)
    } else {
        pluralize(suffix)
    };
    replace_char_exec(plural.as_str(), '_', '-')
}

/// `name` without its first `n` characters.
fn drop_front(name: &str, n: usize) -> (r: String)
    requires
        n <= name@.len(),
    ensures
        r@ == name@.subrange(n as int, name@.len() as int),
{
    let v = chars_of(name);
    string_of_range(&v, n, v.len())
}

/// Classify a function by name and parameters.
pub fn classify_by_name_and_params(name: &str, params: &Vec<Param>) -> (op: OpKind)
    ensures
        op@ == classify_spec(name@, params@),
{
    proof {
        reveal_strlit("add_");
        reveal_strlit("remove_");
        reveal_strlit("list_");
    }
    if str_eq(name, "list") {
        return OpKind::List;
    }
    if str_eq(name, "get_by_id") {
        return OpKind::GetById;
    }
    if str_eq(name, "create") {
        return OpKind::Create;
    }
    if str_eq(name, "update") {
        return OpKind::Update;
    }
    if str_eq(name, "delete") {
        return OpKind::Delete;
    }
    if str_starts_with(name, "add_") && params.len() == 2 {
        let rest = drop_front(name, 4);
        return OpKind::JunctionAdd { child_segment: junction_child_segment(rest.as_str(), false) };
    }
    if str_starts_with(name, "remove_") && params.len() == 2 {
        let rest = drop_front(name, 7);
        return OpKind::JunctionRemove { child_segment: junction_child_segment(rest.as_str(), false) };
    }
    if str_starts_with(name, "list_") && params.len() == 1 {
        let rest = drop_front(name, 5);
        return OpKind::JunctionList { child_segment: junction_child_segment(rest.as_str(), true) };
    }
    if params.len() == 0 {
        return OpKind::CustomGet;
    }
    if str_starts_with(name, "get_") {
        return if first_param_wants_body(&params[0].ty_ast) {
            OpKind::CustomPost
        } else {
            OpKind::CustomGet
        };
    }
    OpKind::CustomPost
}

/// Classify a function into an operation kind. A forced HTTP method
/// short-circuits the name/parameter heuristic.
pub fn classify_op(func: &ApiFn) -> (op: OpKind)
    ensures
        op@ == classify_fn_spec(*func),
{
    match func.force_method {
        Some(ForcedMethod::Post) => OpKind::CustomPost,
        Some(ForcedMethod::Get) => OpKind::CustomGet,
        None => classify_by_name_and_params(func.name.as_str(), &func.params),
    }
}

/// Returns true if a classified op should use HTTP `GET`.
pub fn is_read_op(op: &OpKind) -> (b: bool)
    ensures
        b == is_read_spec(op@),
{
    match op {
        OpKind::List | OpKind::GetById | OpKind::CustomGet | OpKind::JunctionList { .. } => true,
        _ => false,
    }
}

// ─── Laws ───────────────────────────────────────────────────────────────────

/// The five CRUD names classify to their CRUD operations whatever the
/// parameters, and of those only `list` and `get_by_id` are reads.
pub proof fn law_crud_names_ignore_params(params: Seq<Param>)
    ensures
        classify_spec("list"@, params) == OpKindView::List,
        classify_spec("get_by_id"@, params) == OpKindView::GetById,
        classify_spec("create"@, params) == OpKindView::Create,
        classify_spec("update"@, params) == OpKindView::Update,
        classify_spec("delete"@, params) == OpKindView::Delete,
        is_read_spec(classify_spec("list"@, params)),
        is_read_spec(classify_spec("get_by_id"@, params)),
        !is_read_spec(classify_spec("create"@, params)),
        !is_read_spec(classify_spec("update"@, params)),
        !is_read_spec(classify_spec("delete"@, params)),
{
    reveal_strlit("list");
    reveal_strlit("get_by_id");
    reveal_strlit("create");
    reveal_strlit("update");
    reveal_strlit("delete");
    assert("get_by_id"@.len() != "list"@.len());
    assert("create"@.len() != "list"@.len() && "create"@.len() != "get_by_id"@.len());
    assert("update"@.len() != "list"@.len() && "update"@.len() != "get_by_id"@.len());
    assert("update"@[0] != "create"@[0]);
    assert("delete"@.len() != "list"@.len() && "delete"@.len() != "get_by_id"@.len());
    assert("delete"@[0] != "create"@[0] && "delete"@[0] != "update"@[0]);
}

/// A function with no parameters that is not one of the CRUD writes is
/// always routed as a read, unless its method is forced to POST.
pub proof fn law_zero_params_is_read(f: ApiFn)
    requires
        f.params@.len() == 0,
        f.force_method != Some(ForcedMethod::Post),
        f.name@ != "create"@,
        f.name@ != "update"@,
        f.name@ != "delete"@,
    ensures
        is_read_spec(classify_fn_spec(f)),
{
}

/// A forced method decides the classification outright.
pub proof fn law_forced_method_wins(f: ApiFn)
    ensures
        f.force_method == Some(ForcedMethod::Post) ==> classify_fn_spec(f) == OpKindView::CustomPost,
        f.force_method == Some(ForcedMethod::Get) ==> classify_fn_spec(f) == OpKindView::CustomGet,
{
}

} // verus!
