//! Outer attributes as the scanners read them: a path and a meta form,
//! with string-literal values and nested meta lists kept as plain values.

use vstd::prelude::*;

use crate::text::str_eq;

verus! {

/// One `#[...]` attribute.
#[derive(Debug)]
pub struct AttrInfo {
    /// The identifiers of the attribute's path (`ontogen::http::post` is
    /// `["ontogen", "http", "post"]`).
    pub path: Vec<String>,
    /// The attribute's form.
    pub meta: AttrMeta,
}

/// The form of an attribute.
#[derive(Debug)]
pub enum AttrMeta {
    /// `#[path]`.
    Path,
    /// `#[path(...)]`, with its arguments when they parse as a
    /// comma-separated list of meta items.
    List(Option<Vec<MetaItem>>),
    /// `#[path = value]`, with the value when it is a string literal.
    NameValue(Option<String>),
}

/// One item of a meta list.
#[derive(Debug)]
pub enum MetaItem {
    /// A bare path, by its identifiers.
    Path(Vec<String>),
    /// `path = value`, with the value when it is a string literal.
    NameValue(Vec<String>, Option<String>),
    /// `path(...)`, with its arguments when they parse as meta items.
    List(Vec<String>, Option<Vec<MetaItem>>),
}

/// The path is the single identifier `id`.
pub open spec fn path_is(path: Seq<String>, id: Seq<char>) -> bool {
    path.len() == 1 && path[0]@ == id
}

/// The last identifier of the path is `id`.
pub open spec fn path_ends_with(path: Seq<String>, id: Seq<char>) -> bool {
    path.len() > 0 && path[path.len() - 1]@ == id
}

/// Whether `path` is the single identifier `id`.
pub fn path_is_ident(path: &Vec<String>, id: &str) -> (b: bool)
    ensures
        b == path_is(path@, id@),
{
    path.len() == 1 && str_eq(path[0].as_str(), id)
}

/// Whether the last identifier of `path` is `id`.
pub fn path_last_is(path: &Vec<String>, id: &str) -> (b: bool)
    ensures
        b == path_ends_with(path@, id@),
{
    path.len() > 0 && str_eq(path[path.len() - 1].as_str(), id)
}

} // verus!
