//! Structured metadata of service API source files: functions, parameters,
//! events and modules, and the file-level decisions made while scanning.

use vstd::prelude::*;

use crate::servers::types::{vec_contains_str, Overrides};
use crate::text::{
    chars_of, ends_with, owned, split, split_exec, starts_with, str_ends_with, str_eq, str_starts_with, trim,
    trim_exec, trim_start, string_of_range,
};

verus! {

// ─── Type syntax ────────────────────────────────────────────────────────────

/// The shape of a Rust type as written in a signature.
#[derive(Debug)]
pub enum TypeAst {
    /// `&T` or `&mut T`.
    Reference(Box<TypeAst>),
    /// `(A, B, ...)`; `()` is the empty tuple.
    Tuple(Vec<TypeAst>),
    /// A path type such as `Vec<Node>` or `crate::schema::Foo`.
    Path(TypePath),
    /// `dyn Trait`, by its bounds.
    TraitObject(Vec<TraitBound>),
    /// `impl Trait`, by its bounds.
    ImplTrait(Vec<TraitBound>),
    /// An invisible group.
    Group(Box<TypeAst>),
    /// `(T)`.
    Paren(Box<TypeAst>),
    /// `[T; N]`.
    Array(Box<TypeAst>),
    /// `[T]`.
    Slice(Box<TypeAst>),
    /// `*const T` or `*mut T`.
    Ptr(Box<TypeAst>),
    /// Any other type shape.
    Other,
}

/// A path type.
#[derive(Debug)]
pub struct TypePath {
    /// Whether the path has a qualified self (`<T as Trait>::Item`).
    pub qualified: bool,
    /// The path segments.
    pub segments: Vec<PathSegment>,
}

/// One segment of a path.
#[derive(Debug)]
pub struct PathSegment {
    /// The segment's identifier.
    pub ident: String,
    /// Its generic arguments.
    pub args: PathArgs,
}

/// The arguments of a path segment.
#[derive(Debug)]
pub enum PathArgs {
    /// No arguments.
    Bare,
    /// `<...>` arguments.
    AngleBracketed(Vec<GenericArg>),
    /// `(...) -> ...` arguments.
    Parenthesized,
}

/// One `<...>` argument.
#[derive(Debug)]
pub enum GenericArg {
    /// A type argument.
    Type(TypeAst),
    /// A lifetime, const, or binding.
    Other,
}

/// One bound of `dyn`/`impl` types.
#[derive(Debug)]
pub enum TraitBound {
    /// A trait bound, by its path segments.
    Trait(Vec<PathSegment>),
    /// A lifetime or other bound.
    Other,
}

impl TypeAst {
    /// The unit type `()`.
    pub fn unit() -> (t: TypeAst)
        ensures
            t matches TypeAst::Tuple(v) && v@.len() == 0,
    {
        TypeAst::Tuple(Vec::new())
    }
}

// ─── Extracted function metadata ────────────────────────────────────────────

/// Which HTTP method an `#[ontogen::http::*]` attribute forces on a handler.
#[derive(Debug, Clone, Copy, PartialEq, Eq, Structural)]
pub enum ForcedMethod {
    /// Force `OpKind::CustomPost` classification.
    Post,
    /// Force `OpKind::CustomGet` classification.
    Get,
}

/// A single function parameter.
#[derive(Debug)]
pub struct Param {
    /// Parameter name.
    pub name: String,
    /// Normalized type string (no extra spaces).
    pub ty: String,
    /// Parameter type as syntax.
    pub ty_ast: TypeAst,
}

/// A parsed API function signature.
#[derive(Debug)]
pub struct ApiFn {
    /// Function name (e.g., `list`, `get_by_id`, `create`).
    pub name: String,
    /// Whether the function is async.
    pub is_async: bool,
    /// Doc comment text (joined from `///` lines).
    pub doc: String,
    /// Parameters after skipping the state parameter.
    pub params: Vec<Param>,
    /// The inner `T` from `Result<T, E>`, as a normalized string.
    pub return_type: String,
    /// The inner `T` from `Result<T, E>`, as syntax.
    pub return_type_ast: TypeAst,
    /// Whether the first parameter is a store type (vs app state type).
    pub first_param_is_store: bool,
    /// Whether the function was marked `#[ontogen::stateless]`.
    pub is_stateless: bool,
    /// HTTP method forced by an `#[ontogen::http::*]` attribute.
    pub force_method: Option<ForcedMethod>,
    /// Override for the emitted IPC command / TS method name.
    pub command_override: Option<String>,
    /// Index of the API surface this function was scanned from: `0` is the
    /// primary surface.
    pub surface: usize,
    /// State method a store-scoped handler calls to obtain the store.
    pub store_accessor: String,
}

/// Accessor used when a surface names none.
pub const DEFAULT_STORE_ACCESSOR: &'static str = "store";

impl Default for Param {
    fn default() -> (p: Param)
        ensures
            p.name@.len() == 0,
            p.ty@ == "()"@,
            p.ty_ast matches TypeAst::Tuple(v) && v@.len() == 0,
    {
        Param { name: String::new(), ty: String::from_str("()"), ty_ast: TypeAst::unit() }
    }
}

impl Default for ApiFn {
    fn default() -> (f: ApiFn)
        ensures
            f.name@.len() == 0,
            !f.is_async,
            f.doc@.len() == 0,
            f.params@.len() == 0,
            f.return_type@ == "()"@,
            f.return_type_ast matches TypeAst::Tuple(v) && v@.len() == 0,
            !f.first_param_is_store,
            !f.is_stateless,
            f.force_method is None,
            f.command_override is None,
            f.surface == 0,
            f.store_accessor@ == DEFAULT_STORE_ACCESSOR@,
    {
        ApiFn {
            name: String::new(),
            is_async: false,
            doc: String::new(),
            params: Vec::new(),
            return_type: String::from_str("()"),
            return_type_ast: TypeAst::unit(),
            first_param_is_store: false,
            is_stateless: false,
            force_method: None,
            command_override: None,
            surface: 0,
            store_accessor: String::from_str(DEFAULT_STORE_ACCESSOR),
        }
    }
}

/// An event function that returns a `broadcast::Receiver<T>`.
#[derive(Debug, Clone, PartialEq, Eq)]
pub struct EventFn {
    /// Function name (e.g., `graph_updated`).
    pub name: String,
    /// Index of the surface this event was scanned from.
    pub surface: usize,
}

impl Default for EventFn {
    fn default() -> (e: EventFn)
        ensures
            e.name@.len() == 0,
            e.surface == 0,
    {
        EventFn { name: String::new(), surface: 0 }
    }
}

/// A parsed API module with its functions and events.
#[derive(Debug)]
pub struct ApiModule {
    /// Module name (derived from file stem).
    pub name: String,
    /// Regular API functions.
    pub functions: Vec<ApiFn>,
    /// Event broadcast functions.
    pub events: Vec<EventFn>,
    /// True when this module represents a singleton.
    pub is_singleton: bool,
}

/// The five CRUD function names.
pub open spec fn crud_names() -> Seq<Seq<char>> {
    seq!["list"@, "get_by_id"@, "create"@, "update"@, "delete"@]
}

/// Some function of `fns` is named `n`.
pub open spec fn has_fn_named(fns: Seq<ApiFn>, n: Seq<char>) -> bool {
    exists|i: int| 0 <= i < fns.len() && #[trigger] fns[i].name@ == n
}

/// Some function of `fns` is named `n`.
fn fns_have_name(fns: &Vec<ApiFn>, n: &str) -> (b: bool)
    ensures
        b == has_fn_named(fns@, n@),
{
    let mut i: usize = 0;
    while i < fns.len()
        invariant
            i <= fns.len(),
            forall|j: int| 0 <= j < i ==> fns@[j].name@ != n@,
        decreases fns.len() - i,
    {
        if str_eq(fns[i].name.as_str(), n) {
            return true;
        }
        i = i + 1;
    }
    false
}

impl ApiModule {
    /// Returns true if this module has a complete CRUD surface
    /// (list, get_by_id, create, update, delete).
    pub fn is_crud(&self) -> (b: bool)
        ensures
            b == (forall|k: int| 0 <= k < 5 ==> has_fn_named(self.functions@, #[trigger] crud_names()[k])),
    {
        let r = fns_have_name(&self.functions, "list") && fns_have_name(&self.functions, "get_by_id")
            && fns_have_name(&self.functions, "create") && fns_have_name(&self.functions, "update")
            && fns_have_name(&self.functions, "delete");
        proof {
            let n = crud_names();
            assert(n[0] == "list"@ && n[1] == "get_by_id"@ && n[2] == "create"@ && n[3] == "update"@ && n[4]
                == "delete"@);
            if !r {
                if !has_fn_named(self.functions@, n[0]) {
                } else if !has_fn_named(self.functions@, n[1]) {
                } else if !has_fn_named(self.functions@, n[2]) {
                } else if !has_fn_named(self.functions@, n[3]) {
                } else {
                    assert(!has_fn_named(self.functions@, n[4]));
                }
            }
        }
        r
    }

    /// The lowest surface index any of this module's functions or events
    /// came from; `0` when it has neither.
    pub fn base_surface(&self) -> (m: usize)
        ensures
            (self.functions@.len() == 0 && self.events@.len() == 0) ==> m == 0,
            (self.functions@.len() > 0 || self.events@.len() > 0) ==> {
                &&& (exists|i: int| 0 <= i < self.functions@.len() && self.functions@[i].surface == m) || (exists|
                    i: int,
                | 0 <= i < self.events@.len() && self.events@[i].surface == m)
                &&& forall|i: int| 0 <= i < self.functions@.len() ==> m <= #[trigger] self.functions@[i].surface
                &&& forall|i: int| 0 <= i < self.events@.len() ==> m <= #[trigger] self.events@[i].surface
            },
    {
        let mut best: Option<usize> = None;
        let mut i: usize = 0;
        while i < self.functions.len()
            invariant
                i <= self.functions.len(),
                match best {
                    None => i == 0,
                    Some(m) => (exists|j: int| 0 <= j < i && self.functions@[j].surface == m) && forall|j: int|
                        0 <= j < i ==> m <= #[trigger] self.functions@[j].surface,
                },
            decreases self.functions.len() - i,
        {
            let s = self.functions[i].surface;
            best = match best {
                None => Some(s),
                Some(m) => if s < m {
                    Some(s)
                } else {
                    Some(m)
                },
            };
            i = i + 1;
        }
        let mut k: usize = 0;
        while k < self.events.len()
            invariant
                k <= self.events.len(),
                match best {
                    None => k == 0 && self.functions@.len() == 0,
                    Some(m) => ((exists|j: int| 0 <= j < self.functions@.len() && self.functions@[j].surface == m)
                        || (exists|j: int| 0 <= j < k && self.events@[j].surface == m)) && (forall|j: int|
                        0 <= j < self.functions@.len() ==> m <= #[trigger] self.functions@[j].surface) && (forall|
                        j: int,
                    |
                        0 <= j < k ==> m <= #[trigger] self.events@[j].surface),
                },
            decreases self.events.len() - k,
        {
            let s = self.events[k].surface;
            best = match best {
                None => Some(s),
                Some(m) => if s < m {
                    Some(s)
                } else {
                    Some(m)
                },
            };
            k = k + 1;
        }
        match best {
            None => 0,
            Some(m) => m,
        }
    }

    /// The identifier generated handlers call this module's functions
    /// through, for a function scanned from `surface`: the module name for
    /// the base surface, `{name}_{surface}` for any other.
    pub fn service_ident(&self, surface: usize) -> (r: String)
        ensures
            self.base_surface_is(surface) ==> r@ == self.name@,
            !self.base_surface_is(surface) ==> r@ == self.name@ + "_"@ + decimal(surface as nat),
    {
        let base = self.base_surface();
        if surface == base {
            self.name.clone()
        } else {
            proof {
                if self.base_surface_is(surface) {
                    if self.functions@.len() > 0 || self.events@.len() > 0 {
                        if exists|i: int| 0 <= i < self.functions@.len() && self.functions@[i].surface == surface {
                            let i = choose|i: int| 0 <= i < self.functions@.len() && self.functions@[i].surface == surface;
                            assert(base <= self.functions@[i].surface);
                        } else {
                            let i = choose|i: int| 0 <= i < self.events@.len() && self.events@[i].surface == surface;
                            assert(base <= self.events@[i].surface);
                        }
                        if exists|i: int| 0 <= i < self.functions@.len() && self.functions@[i].surface == base {
                            let i = choose|i: int| 0 <= i < self.functions@.len() && self.functions@[i].surface == base;
                            assert(surface <= self.functions@[i].surface);
                        } else {
                            let i = choose|i: int| 0 <= i < self.events@.len() && self.events@[i].surface == base;
                            assert(surface <= self.events@[i].surface);
                        }
                    }
                }
            }
            let mut r = self.name.clone();
            r.append("_");
            let digits = usize_to_decimal(surface);
            r.append(digits.as_str());
            r
        }
    }

    /// `surface` is this module's base surface.
    pub open spec fn base_surface_is(&self, surface: usize) -> bool {
        &&& (self.functions@.len() == 0 && self.events@.len() == 0) ==> surface == 0
        &&& (self.functions@.len() > 0 || self.events@.len() > 0) ==> {
            &&& (exists|i: int| 0 <= i < self.functions@.len() && self.functions@[i].surface == surface) || (exists|
                i: int,
            | 0 <= i < self.events@.len() && self.events@[i].surface == surface)
            &&& forall|i: int| 0 <= i < self.functions@.len() ==> surface <= #[trigger] self.functions@[i].surface
            &&& forall|i: int| 0 <= i < self.events@.len() ==> surface <= #[trigger] self.events@[i].surface
        }
    }
}

/// The decimal digits of `n`.
pub open spec fn decimal(n: nat) -> Seq<char>
    decreases n,
{
    if n < 10 {
        seq![digit_char(n)]
    } else {
        decimal(n / 10) + seq![digit_char(n % 10)]
    }
}

pub open spec fn digit_char(d: nat) -> char {
    if d == 0 {
        '0'
    } else if d == 1 {
        '1'
    } else if d == 2 {
        '2'
    } else if d == 3 {
        '3'
    } else if d == 4 {
        '4'
    } else if d == 5 {
        '5'
    } else if d == 6 {
        '6'
    } else if d == 7 {
        '7'
    } else if d == 8 {
        '8'
    } else {
        '9'
    }
}

fn digit_exec(d: usize) -> (c: char)
    requires
        d < 10,
    ensures
        c == digit_char(d as nat),
{
    if d == 0 {
        '0'
    } else if d == 1 {
        '1'
    } else if d == 2 {
        '2'
    } else if d == 3 {
        '3'
    } else if d == 4 {
        '4'
    } else if d == 5 {
        '5'
    } else if d == 6 {
        '6'
    } else if d == 7 {
        '7'
    } else if d == 8 {
        '8'
    } else {
        '9'
    }
}

/// `n` written in decimal.
pub fn usize_to_decimal(n: usize) -> (r: String)
    ensures
        r@ == decimal(n as nat),
    decreases n,
{
    if n < 10 {
        let mut r = String::new();
        crate::text::push_char(&mut r, digit_exec(n));
        assert(r@ =~= seq![digit_char(n as nat)]);
        r
    } else {
        let mut r = usize_to_decimal(n / 10);
        crate::text::push_char(&mut r, digit_exec(n % 10));
        r
    }
}

// ─── File-level markers ─────────────────────────────────────────────────────

/// A line of `str::lines`: the piece without its trailing `\r` when a `\n`
/// followed it.
pub open spec fn line_piece(piece: Seq<char>, ended: bool) -> Seq<char> {
    if ended && piece.len() > 0 && piece.last() == '\r' {
        piece.drop_last()
    } else {
        piece
    }
}

/// The lines of `s`, as `str::lines` yields them.
pub open spec fn lines(s: Seq<char>) -> Seq<Seq<char>> {
    let pieces = split(s, "\n"@);
    let n = pieces.len();
    let kept = if n > 0 && pieces[n - 1].len() == 0 {
        (n - 1) as nat
    } else {
        n
    };
    Seq::new(kept, |i: int| line_piece(pieces[i], i < n - 1))
}

/// A line that may precede a file-level marker: blank, a line comment, or
/// an inner attribute.
pub open spec fn is_header_line(line: Seq<char>) -> bool {
    let t = trim_start(line);
    t.len() == 0 || starts_with(t, "//"@) || starts_with(t, "#!"@)
}

/// A marker line for `name`: `// ontogen:<name>` or `//! ontogen:<name>`.
pub open spec fn is_marker_line(line: Seq<char>, name: Seq<char>) -> bool {
    trim(line) == "// ontogen:"@ + name || trim(line) == "//! ontogen:"@ + name
}

/// Some line of the leading header block is a marker line for `name`.
pub open spec fn header_has_marker(ls: Seq<Seq<char>>, name: Seq<char>) -> bool
    decreases ls.len(),
{
    if ls.len() == 0 || !is_header_line(ls[0]) {
        false
    } else {
        is_marker_line(ls[0], name) || header_has_marker(ls.subrange(1, ls.len() as int), name)
    }
}

/// Whether `line` is blank, a line comment, or an inner attribute.
fn header_line(line: &str) -> (b: bool)
    ensures
        b == is_header_line(line@),
{
    let v = chars_of(line);
    let (a, _) = crate::text::trim_bounds(&v);
    let t = string_of_range(&v, a, v.len());
    t.as_str().unicode_len() == 0 || str_starts_with(t.as_str(), "//") || str_starts_with(t.as_str(), "#!")
}

/// Returns true when `source` carries a file-level marker `name` (e.g.
/// `skip`, `singleton`) in its leading comment-and-attribute block.
pub fn has_top_level_marker(source: &str, name: &str) -> (b: bool)
    ensures
        b == header_has_marker(lines(source@), name@),
{
    proof {
        reveal_strlit("\n");
    }
    let mut line_form = String::from_str("// ontogen:");
    line_form.append(name);
    let mut doc_form = String::from_str("//! ontogen:");
    doc_form.append(name);
    let pieces = split_exec(source, "\n");
    let ghost ps = pieces.deep_view();
    let ghost ls = lines(source@);
    let n = pieces.len();
    proof {
        crate::text::lemma_split_nonempty(source@, "\n"@);
    }
    let kept: usize = if n > 0 && pieces[n - 1].as_str().unicode_len() == 0 {
        n - 1
    } else {
        n
    };
    assert(ls.len() == kept);
    let mut i: usize = 0;
    assert(ls.subrange(0, ls.len() as int) =~= ls);
    while i < kept
        invariant
            i <= kept <= n,
            n == pieces.len(),
            pieces.deep_view() == ps,
            ps == split(source@, "\n"@),
            ls == lines(source@),
            ls.len() == kept,
            line_form@ == "// ontogen:"@ + name@,
            doc_form@ == "//! ontogen:"@ + name@,
            header_has_marker(ls, name@) == header_has_marker(ls.subrange(i as int, ls.len() as int), name@),
        decreases kept - i,
    {
        let ghost t = ls.subrange(i as int, ls.len() as int);
        assert(t[0] == ls[i as int]);
        let pv = chars_of(pieces[i].as_str());
        let line = if i + 1 < n && pv.len() > 0 && pv[pv.len() - 1] == '\r' {
            string_of_range(&pv, 0, pv.len() - 1)
        } else {
            owned(pieces[i].as_str())
        };
        assert(line@ == ls[i as int]);
        if !header_line(line.as_str()) {
            return false;
        }
        let t2 = trim_exec(line.as_str());
        if str_eq(t2.as_str(), line_form.as_str()) || str_eq(t2.as_str(), doc_form.as_str()) {
            return true;
        }
        assert(t.subrange(1, t.len() as int) =~= ls.subrange(i + 1, ls.len() as int));
        i = i + 1;
    }
    false
}

/// Returns true when `source` has a file-level skip marker.
pub fn has_skip_marker(source: &str) -> (b: bool)
    ensures
        b == header_has_marker(lines(source@), "skip"@),
{
    has_top_level_marker(source, "skip")
}

/// Returns true when `source` has a file-level singleton marker.
pub fn has_singleton_marker(source: &str) -> (b: bool)
    ensures
        b == header_has_marker(lines(source@), "singleton"@),
{
    has_top_level_marker(source, "singleton")
}

/// A file name the scanner parses: an `.rs` file whose stem is neither
/// `mod` nor ends in `_impl`.
pub open spec fn is_scannable_name(file_name: Seq<char>) -> bool {
    let stem = file_name.subrange(0, file_name.len() - 3);
    &&& ends_with(file_name, ".rs"@)
    &&& file_name.len() > 3
    &&& stem != "mod"@
    &&& !ends_with(stem, "_impl"@)
}

/// Check if a file name is a scannable `.rs` file (not `mod.rs`, not
/// `_impl` suffix).
pub fn is_scannable_rs_file(file_name: &str) -> (b: bool)
    ensures
        b == is_scannable_name(file_name@),
{
    proof {
        reveal_strlit(".rs");
    }
    if !str_ends_with(file_name, ".rs") {
        return false;
    }
    let v = chars_of(file_name);
    if v.len() <= 3 {
        return false;
    }
    let stem = string_of_range(&v, 0, v.len() - 3);
    !str_eq(stem.as_str(), "mod") && !str_ends_with(stem.as_str(), "_impl")
}

/// OR a config-side singleton declaration onto each parsed module.
pub fn apply_singleton_overlay(modules: &mut Vec<ApiModule>, naming: &crate::servers::types::NamingConfig)
    ensures
        final(modules)@.len() == old(modules)@.len(),
        forall|i: int|
            0 <= i < final(modules)@.len() ==> {
                let (m, o) = (#[trigger] final(modules)@[i], old(modules)@[i]);
                &&& m.name == o.name
                &&& m.functions == o.functions
                &&& m.events == o.events
                &&& m.is_singleton == (o.is_singleton || naming.singleton_modules.deep_view().contains(o.name@))
            },
{
    let mut i: usize = 0;
    while i < modules.len()
        invariant
            i <= modules.len(),
            modules@.len() == old(modules)@.len(),
            forall|j: int|
                i <= j < modules@.len() ==> #[trigger] modules@[j] == old(modules)@[j],
            forall|j: int|
                0 <= j < i ==> {
                    let (m, o) = (#[trigger] modules@[j], old(modules)@[j]);
                    &&& m.name == o.name
                    &&& m.functions == o.functions
                    &&& m.events == o.events
                    &&& m.is_singleton == (o.is_singleton || naming.singleton_modules.deep_view().contains(
                        o.name@,
                    ))
                },
        decreases modules.len() - i,
    {
        let hit = vec_contains_str(&naming.singleton_modules, modules[i].name.as_str());
        if hit {
            modules[i].is_singleton = true;
        }
        i = i + 1;
    }
}

} // verus!
