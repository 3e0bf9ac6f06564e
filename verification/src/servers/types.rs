//! Type-string normalisation and transformation, TypeScript type mapping, and
//! module naming.

use vstd::prelude::*;

use crate::text::{
    ascii_upper, ascii_upper_exec, upper_char, chars_of, contains, ends_with, is_ascii_char, is_ascii_lower,
    is_ascii_str, lemma_replace_char_removes,
    lemma_split_nonempty, lemma_trim_idem, lemma_trim_len, occurs_at_exec, owned, push_char, replace, replace_char,
    replace_char_exec, replace_exec, split, split_exec, starts_with, str_contains, str_ends_with, str_eq,
    str_starts_with, string_of_range, trim, trim_end_matches, trim_exec, upper_of_char,
};

verus! {

// ─── Specifications ─────────────────────────────────────────────────────────

/// The eight space-removing rewrites of [`normalize_spaces`], in order.
pub open spec fn normalize_spaces_spec(s: Seq<char>) -> Seq<char> {
    let s1 = replace(s, " :: "@, "::"@);
    let s2 = replace(s1, ":: "@, "::"@);
    let s3 = replace(s2, " ::"@, "::"@);
    let s4 = replace(s3, " <"@, "<"@);
    let s5 = replace(s4, "< "@, "<"@);
    let s6 = replace(s5, " >"@, ">"@);
    let s7 = replace(s6, "> "@, ">"@);
    replace(s7, "& "@, "&"@)
}

/// The first character upper-cased, the rest unchanged.
pub open spec fn capitalize_spec(s: Seq<char>) -> Seq<char> {
    if s.len() == 0 {
        Seq::empty()
    } else {
        upper_char(s[0]) + s.subrange(1, s.len() as int)
    }
}

/// `s` with its first character ASCII-upper-cased.
pub open spec fn ascii_capitalized(s: Seq<char>) -> Seq<char> {
    if s.len() == 0 {
        s
    } else {
        seq![ascii_upper(s[0])] + s.subrange(1, s.len() as int)
    }
}

/// On ASCII text, capitalizing upper-cases the first character the ASCII
/// way: it keeps the length, upper-cases the first character and keeps the
/// rest, yields ASCII text again, and capitalizing twice is capitalizing
/// once.
pub proof fn law_ascii_capitalize(s: Seq<char>)
    requires
        is_ascii_str(s),
    ensures
        ascii_capitalized(s).len() == s.len(),
        s.len() == 0 ==> ascii_capitalized(s) == s,
        s.len() > 0 ==> ascii_capitalized(s)[0] == ascii_upper(s[0]) && ascii_capitalized(s).subrange(1, s.len() as int)
            == s.subrange(1, s.len() as int),
        is_ascii_str(ascii_capitalized(s)),
        ascii_capitalized(ascii_capitalized(s)) == ascii_capitalized(s),
        capitalize_spec(s) == ascii_capitalized(s),
        capitalize_spec(capitalize_spec(s)) == capitalize_spec(s),
{
    if s.len() > 0 {
        let r = ascii_capitalized(s);
        assert(r.subrange(1, s.len() as int) =~= s.subrange(1, s.len() as int));
        assert(is_ascii_char(s[0]));
        assert(is_ascii_char(ascii_upper(s[0]))) by {
            if is_ascii_lower(s[0]) {
                assert(((s[0] as u32) - 32) < 128);
            }
        }
        assert forall|i: int| 0 <= i < r.len() implies is_ascii_char(#[trigger] r[i]) by {
            if i > 0 {
                assert(r[i] == s[i]);
            }
        }
        assert(ascii_upper(ascii_upper(s[0])) == ascii_upper(s[0])) by {
            if is_ascii_lower(s[0]) {
                assert(!is_ascii_lower(ascii_upper(s[0])));
            }
        }
        assert(ascii_capitalized(r) =~= r);
    }
}

/// The type trimmed, without one leading `&` (trimmed again after it).
pub open spec fn strip_ref_spec(ty: Seq<char>) -> Seq<char> {
    let t = trim(ty);
    if t.len() > 0 && t[0] == '&' {
        trim(t.subrange(1, t.len() as int))
    } else {
        t
    }
}

/// `T` for `Vec<T>`, the type itself otherwise.
pub open spec fn inner_type_spec(ty: Seq<char>) -> Seq<char> {
    if starts_with(ty, "Vec<"@) && ends_with(ty, ">"@) && ty.len() >= 5 {
        ty.subrange(4, ty.len() - 1)
    } else {
        ty
    }
}

/// Primitives, prelude scalars and path types that are never imported.
pub open spec fn is_prelude_scalar_spec(name: Seq<char>) -> bool {
    ||| name == "bool"@
    ||| name == "char"@
    ||| name == "i8"@
    ||| name == "i16"@
    ||| name == "i32"@
    ||| name == "i64"@
    ||| name == "i128"@
    ||| name == "isize"@
    ||| name == "u8"@
    ||| name == "u16"@
    ||| name == "u32"@
    ||| name == "u64"@
    ||| name == "u128"@
    ||| name == "usize"@
    ||| name == "f32"@
    ||| name == "f64"@
    ||| name == "String"@
    ||| name == "str"@
    ||| name == "PathBuf"@
    ||| name == "Path"@
}

/// Upper-case the first character of every `_`-separated part and drop the
/// underscores; `start` says whether the next character begins a part.
pub open spec fn pascal_from(s: Seq<char>, start: bool) -> Seq<char>
    decreases s.len(),
{
    if s.len() == 0 {
        Seq::empty()
    } else if s[0] == '_' {
        pascal_from(s.subrange(1, s.len() as int), true)
    } else {
        (if start {
            upper_char(s[0])
        } else {
            seq![s[0]]
        }) + pascal_from(s.subrange(1, s.len() as int), false)
    }
}

/// snake_case to camelCase: underscores dropped, the character after each
/// one ASCII-upper-cased.
pub open spec fn camel_from(s: Seq<char>, cap: bool) -> Seq<char>
    decreases s.len(),
{
    if s.len() == 0 {
        Seq::empty()
    } else if s[0] == '_' {
        camel_from(s.subrange(1, s.len() as int), true)
    } else {
        seq![if cap { ascii_upper(s[0]) } else { s[0] }] + camel_from(s.subrange(1, s.len() as int), false)
    }
}

/// The inputs [`param_to_owned_type`] handles: every `Option<` it peels has
/// an inner part and ends on a one-byte character.
pub open spec fn owned_type_ok(ty: Seq<char>) -> bool
    decreases ty.len(),
{
    starts_with(ty, "Option<"@) ==> {
        &&& ty.len() >= 8
        &&& (ty.last() as u32) < 128
        &&& owned_type_ok(ty.subrange(7, ty.len() - 1))
    }
}

/// The owned form of a parameter type: `&str` becomes `String`, `Option<T>`
/// maps `T`, any other type loses a leading `&`.
pub open spec fn owned_type_spec(ty: Seq<char>) -> Seq<char>
    decreases ty.len(),
{
    if starts_with(ty, "Option<"@) && ty.len() >= 8 {
        "Option<"@ + owned_type_spec(ty.subrange(7, ty.len() - 1)) + ">"@
    } else if ty == "&str"@ || ty == "& str"@ {
        "String"@
    } else {
        strip_ref_spec(ty)
    }
}

pub open spec fn is_ts_number(t: Seq<char>) -> bool {
    t == "i32"@ || t == "i64"@ || t == "u32"@ || t == "u64"@ || t == "f32"@ || t == "f64"@
}

/// The TypeScript type for a Rust type string.
pub open spec fn ts_type_spec(ty: Seq<char>) -> Seq<char>
    decreases ty.len(),
{
    let t = trim(ty);
    if t == "()"@ {
        "null"@
    } else if t == "String"@ || t == "&str"@ || t == "str"@ {
        "string"@
    } else if is_ts_number(t) {
        "number"@
    } else if t == "bool"@ {
        "boolean"@
    } else if t.len() > 0 && t[0] == '&' {
        proof {
            lemma_trim_len(ty);
            lemma_trim_len(t.subrange(1, t.len() as int));
        }
        ts_type_spec(trim(t.subrange(1, t.len() as int)))
    } else if starts_with(t, "Option<"@) && ends_with(t, ">"@) && t.len() >= 8 {
        proof {
            lemma_trim_len(ty);
        }
        ts_type_spec(t.subrange(7, t.len() - 1)) + " | null"@
    } else if starts_with(t, "Vec<"@) && ends_with(t, ">"@) && t.len() >= 5 {
        proof {
            lemma_trim_len(ty);
        }
        ts_type_spec(t.subrange(4, t.len() - 1)) + "[]"@
    } else if contains(t, "::"@) {
        let parts = split(t, "::"@);
        if parts.len() == 2 && parts[1] == "Model"@ {
            capitalize_spec(parts[0]) + parts[1]
        } else {
            parts.last()
        }
    } else {
        t
    }
}

/// Leading whitespace: every character before `trim_start(s)` is
/// whitespace.
proof fn lemma_trim_start_ws(s: Seq<char>)
    ensures
        forall|j: int| 0 <= j < s.len() - crate::text::trim_start(s).len() ==> crate::text::is_ws(#[trigger] s[j]),
    decreases s.len(),
{
    if s.len() > 0 && crate::text::is_ws(s[0]) {
        let t = s.subrange(1, s.len() as int);
        lemma_trim_start_ws(t);
        assert forall|j: int| 0 <= j < s.len() - crate::text::trim_start(s).len() implies crate::text::is_ws(
            #[trigger] s[j],
        ) by {
            if j > 0 {
                assert(s[j] == t[j - 1]);
            }
        }
    }
}

/// Trailing whitespace: every character after `trim_end(s)` is whitespace.
proof fn lemma_trim_end_ws(s: Seq<char>)
    ensures
        forall|j: int| crate::text::trim_end(s).len() <= j < s.len() ==> crate::text::is_ws(#[trigger] s[j]),
    decreases s.len(),
{
    if s.len() > 0 && crate::text::is_ws(s.last()) {
        let t = s.drop_last();
        lemma_trim_end_ws(t);
        assert forall|j: int| crate::text::trim_end(s).len() <= j < s.len() implies crate::text::is_ws(
            #[trigger] s[j],
        ) by {
            if j < s.len() - 1 {
                assert(s[j] == t[j]);
            }
        }
    }
}

/// Trimming after dropping trailing whitespace is trimming.
proof fn lemma_trim_after_trim_end(t: Seq<char>)
    ensures
        trim(crate::text::trim_end(t)) == trim(t),
{
    let n = t.len() as int;
    let te = crate::text::trim_end(t);
    let u = crate::text::trim_start(t);
    crate::text::lemma_trim_end_props(t);
    crate::text::lemma_trim_start_props(t);
    lemma_trim_end_ws(t);
    lemma_trim_start_ws(t);
    let m = te.len() as int;
    let k = n - u.len();
    if k <= m {
        assert forall|j: int| 0 <= j < k implies crate::text::is_ws(#[trigger] te[j]) by {
            assert(te[j] == t[j]);
        }
        crate::text::lemma_trim_start_skip(te, k);
        let w = te.subrange(k, m);
        assert(w =~= t.subrange(k, m));
        if w.len() > 0 {
            assert(w[0] == u[0]);
        }
        assert(crate::text::trim_start(w) == w);
        assert forall|j: int| m - k <= j < u.len() implies crate::text::is_ws(#[trigger] u[j]) by {
            assert(u[j] == t[k + j]);
        }
        crate::text::lemma_trim_end_take(u, m - k);
        assert(u.subrange(0, m - k) =~= w);
    } else {
        assert forall|j: int| 0 <= j < m implies crate::text::is_ws(#[trigger] te[j]) by {
            assert(te[j] == t[j]);
        }
        crate::text::lemma_trim_start_skip(te, m);
        assert(te.subrange(m, m) =~= Seq::<char>::empty());
        assert forall|j: int| 0 <= j < u.len() implies crate::text::is_ws(#[trigger] u[j]) by {
            assert(u[j] == t[k + j]);
        }
        crate::text::lemma_trim_end_take(u, 0);
        assert(u.subrange(0, 0) =~= Seq::<char>::empty());
    }
}

/// A text whose ends are not whitespace is its own trim.
proof fn lemma_trim_fixed(s: Seq<char>)
    requires
        s.len() > 0,
        !crate::text::is_ws(s[0]),
        !crate::text::is_ws(s.last()),
    ensures
        trim(s) == s,
{
}

/// The TypeScript type of a Rust type depends on the type only through its
/// trimmed text.
proof fn lemma_ts_of_trim(x: Seq<char>, y: Seq<char>)
    requires
        trim(x) == trim(y),
    ensures
        ts_type_spec(x) == ts_type_spec(y),
{
    reveal_with_fuel(ts_type_spec, 1);
}

/// The TypeScript of the scalar Rust types a field can have.
pub(crate) proof fn lemma_ts_of_scalars()
    ensures
        ts_type_spec("String"@) == "string"@,
        ts_type_spec("i32"@) == "number"@,
        ts_type_spec("i64"@) == "number"@,
        ts_type_spec("f32"@) == "number"@,
        ts_type_spec("f64"@) == "number"@,
        ts_type_spec("bool"@) == "boolean"@,
{
    reveal_strlit("()");
    reveal_strlit("String");
    reveal_strlit("&str");
    reveal_strlit("str");
    reveal_strlit("bool");
    reveal_strlit("i32");
    reveal_strlit("i64");
    reveal_strlit("u32");
    reveal_strlit("u64");
    reveal_strlit("f32");
    reveal_strlit("f64");
    lemma_trim_fixed("String"@);
    lemma_trim_fixed("i32"@);
    lemma_trim_fixed("i64"@);
    lemma_trim_fixed("f32"@);
    lemma_trim_fixed("f64"@);
    lemma_trim_fixed("bool"@);
    assert("String"@[0] != "()"@[0] && "String"@[0] != "&str"@[0]);
    assert("bool"@[0] != "i32"@[0] && "bool"@[0] != "u32"@[0] && "bool"@[0] != "f32"@[0]);
    assert("bool"@[0] != "&str"@[0] && "bool"@[0] != "str"@[0]);
    assert("i32"@[0] != "str"@[0] && "i64"@[0] != "str"@[0] && "f32"@[0] != "str"@[0] && "f64"@[0] != "str"@[0]);
}

/// `rust_type_to_ts` maps the type constructors consistently: `Vec<T>`
/// becomes the TypeScript of `T` followed by `[]`, `Option<T>` the
/// TypeScript of `T` followed by ` | null`, and `&T` the TypeScript of `T`.
pub proof fn law_ts_constructors(t: Seq<char>)
    ensures
        ts_type_spec("Vec<"@ + t + ">"@) == ts_type_spec(t) + "[]"@,
        ts_type_spec("Option<"@ + t + ">"@) == ts_type_spec(t) + " | null"@,
        ts_type_spec("&"@ + t) == ts_type_spec(t),
{
    reveal_strlit("Vec<");
    reveal_strlit(">");
    reveal_strlit("Option<");
    reveal_strlit("&");
    reveal_strlit("()");
    reveal_strlit("String");
    reveal_strlit("&str");
    reveal_strlit("str");
    reveal_strlit("bool");
    reveal_strlit("i32");
    reveal_strlit("i64");
    reveal_strlit("u32");
    reveal_strlit("u64");
    reveal_strlit("f32");
    reveal_strlit("f64");
    let v = "Vec<"@ + t + ">"@;
    lemma_trim_fixed(v);
    assert(v.subrange(0, 4) =~= "Vec<"@);
    assert(v.subrange(v.len() - 1, v.len() as int) =~= ">"@);
    assert(v.subrange(4, v.len() - 1) =~= t);
    assert(!starts_with(v, "Option<"@)) by {
        if v.len() >= 7 {
            assert(v.subrange(0, 7)[0] == 'V');
        }
    }
    assert(v != "String"@ && v != "&str"@ && v != "str"@ && v != "()"@ && v != "bool"@ && !is_ts_number(v)) by {
        assert(v[0] == 'V');
    }
    let o = "Option<"@ + t + ">"@;
    lemma_trim_fixed(o);
    assert(o.subrange(0, 7) =~= "Option<"@);
    assert(o.subrange(o.len() - 1, o.len() as int) =~= ">"@);
    assert(o.subrange(7, o.len() - 1) =~= t);
    assert(o != "String"@ && o != "&str"@ && o != "str"@ && o != "()"@ && o != "bool"@ && !is_ts_number(o)) by {
        assert(o[0] == 'O');
    }
    let r = "&"@ + t;
    let te = crate::text::trim_end(t);
    crate::text::lemma_trim_end_props(t);
    lemma_trim_end_ws(t);
    let m = te.len() as int;
    assert forall|j: int| 1 + m <= j < r.len() implies crate::text::is_ws(#[trigger] r[j]) by {
        assert(r[j] == t[j - 1]);
    }
    crate::text::lemma_trim_end_take(r, 1 + m);
    let rt = "&"@ + te;
    assert(r.subrange(0, 1 + m) =~= rt);
    assert(crate::text::trim_end(rt) == rt);
    assert(crate::text::trim_start(r) == r);
    assert(trim(r) == rt);
    lemma_trim_after_trim_end(t);
    assert(rt.subrange(1, rt.len() as int) =~= te);
    if rt == "&str"@ {
        assert(te =~= "str"@) by {
            assert(te =~= rt.subrange(1, 4));
        }
        lemma_trim_fixed(te);
        assert(trim(t) == "str"@);
    } else {
        assert(rt != "String"@ && rt != "str"@ && rt != "()"@ && rt != "bool"@ && !is_ts_number(rt)) by {
            assert(rt[0] == '&');
        }
        crate::text::lemma_trim_idem(t);
        lemma_ts_of_trim(trim(te), t);
    }
}

/// TypeScript names that are never imported.
pub open spec fn is_ts_builtin(base: Seq<char>) -> bool {
    base == "null"@ || base == "void"@ || base == "string"@ || base == "number"@ || base == "boolean"@
        || base.len() == 0
}

/// One TypeScript type without `|`: its base name (array suffixes removed)
/// added to `imports` unless it is built in or already there.
pub open spec fn add_simple_ts_import(ts: Seq<char>, imports: Seq<Seq<char>>) -> Seq<Seq<char>> {
    let base = trim_end_matches(ts, "[]"@);
    if is_ts_builtin(base) || imports.contains(base) {
        imports
    } else {
        imports.push(base)
    }
}

/// Each trimmed part of a union added in turn.
pub open spec fn add_ts_parts(parts: Seq<Seq<char>>, imports: Seq<Seq<char>>) -> Seq<Seq<char>>
    decreases parts.len(),
{
    if parts.len() == 0 {
        imports
    } else {
        add_simple_ts_import(trim(parts.last()), add_ts_parts(parts.drop_last(), imports))
    }
}

/// The imports after [`collect_ts_import`].
pub open spec fn add_ts_import(ts: Seq<char>, imports: Seq<Seq<char>>) -> Seq<Seq<char>> {
    if contains(ts, " | "@) {
        add_ts_parts(split(ts, " | "@), imports)
    } else {
        add_simple_ts_import(ts, imports)
    }
}

// ─── Lemmas ─────────────────────────────────────────────────────────────────

/// A sequence holds no duplicate.
pub open spec fn no_dups(s: Seq<Seq<char>>) -> bool {
    forall|i: int, j: int| 0 <= i < j < s.len() ==> s[i] != s[j]
}

/// Adding TypeScript imports never duplicates a name and never drops one.
pub proof fn lemma_add_ts_parts_keeps(parts: Seq<Seq<char>>, imports: Seq<Seq<char>>)
    ensures
        no_dups(imports) ==> no_dups(add_ts_parts(parts, imports)),
        forall|x: Seq<char>| imports.contains(x) ==> add_ts_parts(parts, imports).contains(x),
        add_ts_parts(parts, imports).len() >= imports.len(),
        add_ts_parts(parts, imports).subrange(0, imports.len() as int) == imports,
    decreases parts.len(),
{
    if parts.len() > 0 {
        let inner = add_ts_parts(parts.drop_last(), imports);
        lemma_add_ts_parts_keeps(parts.drop_last(), imports);
        lemma_add_simple_keeps(trim(parts.last()), inner);
        let out = add_ts_parts(parts, imports);
        assert(out.subrange(0, inner.len() as int) == inner);
        assert(out.subrange(0, imports.len() as int) =~= inner.subrange(0, imports.len() as int));
    } else {
        assert(imports.subrange(0, imports.len() as int) =~= imports);
    }
}

pub proof fn lemma_add_simple_keeps(ts: Seq<char>, imports: Seq<Seq<char>>)
    ensures
        no_dups(imports) ==> no_dups(add_simple_ts_import(ts, imports)),
        forall|x: Seq<char>| imports.contains(x) ==> add_simple_ts_import(ts, imports).contains(x),
        add_simple_ts_import(ts, imports).len() >= imports.len(),
        add_simple_ts_import(ts, imports).subrange(0, imports.len() as int) == imports,
{
    let out = add_simple_ts_import(ts, imports);
    assert forall|x: Seq<char>| imports.contains(x) implies out.contains(x) by {
        let i = choose|i: int| 0 <= i < imports.len() && imports[i] == x;
        assert(out[i] == x);
    }
    assert(out.subrange(0, imports.len() as int) =~= imports);
}

/// Collecting TypeScript imports keeps the list free of duplicates and keeps
/// every name already collected.
pub proof fn lemma_ts_import_keeps(ts: Seq<char>, imports: Seq<Seq<char>>)
    ensures
        no_dups(imports) ==> no_dups(add_ts_import(ts, imports)),
        forall|x: Seq<char>| imports.contains(x) ==> add_ts_import(ts, imports).contains(x),
{
    if contains(ts, " | "@) {
        lemma_add_ts_parts_keeps(split(ts, " | "@), imports);
    } else {
        lemma_add_simple_keeps(ts, imports);
    }
}

/// A name `collect_ts_import` may add: not a TypeScript builtin, not an
/// array, not a union.
pub open spec fn ts_import_name_ok(x: Seq<char>) -> bool {
    !is_ts_builtin(x) && !ends_with(x, "[]"@) && !contains(x, " | "@)
}

/// The name a single TypeScript type imports: its text without trailing
/// `[]`s.
pub open spec fn ts_base(ts: Seq<char>) -> Seq<char> {
    trim_end_matches(ts, "[]"@)
}

/// Stripping trailing copies of `p` leaves a prefix that does not end with
/// `p`.
proof fn lemma_trim_end_matches_prefix(s: Seq<char>, p: Seq<char>)
    requires
        p.len() > 0,
    ensures
        trim_end_matches(s, p).len() <= s.len(),
        trim_end_matches(s, p) == s.subrange(0, trim_end_matches(s, p).len() as int),
        !ends_with(trim_end_matches(s, p), p),
    decreases s.len(),
{
    if ends_with(s, p) {
        let t = s.subrange(0, s.len() - p.len());
        lemma_trim_end_matches_prefix(t, p);
        assert(t.subrange(0, trim_end_matches(t, p).len() as int) =~= s.subrange(
            0,
            trim_end_matches(t, p).len() as int,
        ));
    } else {
        assert(s.subrange(0, s.len() as int) =~= s);
    }
}

/// A piece of a text holds no occurrence the text does not hold.
proof fn lemma_contains_sub(s: Seq<char>, a: int, b: int, p: Seq<char>)
    requires
        0 <= a <= b <= s.len(),
        contains(s.subrange(a, b), p),
    ensures
        contains(s, p),
{
    let w = s.subrange(a, b);
    let j = choose|j: int| crate::text::occurs_at(w, p, j);
    assert(w.subrange(j, j + p.len()) =~= s.subrange(a + j, a + j + p.len()));
    assert(crate::text::occurs_at(s, p, a + j));
}

/// No piece of a split holds the separator.
proof fn lemma_split_pieces(s: Seq<char>, sep: Seq<char>)
    requires
        sep.len() > 0,
    ensures
        forall|i: int| 0 <= i < split(s, sep).len() ==> !contains(#[trigger] split(s, sep)[i], sep),
    decreases s.len(),
{
    crate::text::lemma_index_of_first(s, sep);
    match crate::text::index_of(s, sep) {
        None => {
            assert(split(s, sep) =~= seq![s]);
        },
        Some(k) => {
            crate::text::lemma_index_of_bounds(s, sep);
            let rest = s.subrange(k + sep.len(), s.len() as int);
            lemma_split_pieces(rest, sep);
            let head = s.subrange(0, k);
            assert(!contains(head, sep)) by {
                if contains(head, sep) {
                    let j = choose|j: int| crate::text::occurs_at(head, sep, j);
                    assert(head.subrange(j, j + sep.len()) =~= s.subrange(j, j + sep.len()));
                    assert(crate::text::occurs_at(s, sep, j));
                }
            }
            assert forall|i: int| 0 <= i < split(s, sep).len() implies !contains(#[trigger] split(s, sep)[i], sep) by {
                if i > 0 {
                    assert(split(s, sep)[i] == split(rest, sep)[i - 1]);
                }
            }
        },
    }
}

/// What adding one simple type may add: its base, a name as
/// `collect_ts_import` may add, when the type is no union.
proof fn lemma_add_simple_new(ts: Seq<char>, imports: Seq<Seq<char>>)
    requires
        !contains(ts, " | "@),
    ensures
        forall|j: int|
            imports.len() <= j < add_simple_ts_import(ts, imports).len() ==> ts_import_name_ok(
                #[trigger] add_simple_ts_import(ts, imports)[j],
            ),
        is_ts_builtin(ts_base(ts)) || add_simple_ts_import(ts, imports).contains(ts_base(ts)),
{
    reveal_strlit("[]");
    let base = ts_base(ts);
    lemma_trim_end_matches_prefix(ts, "[]"@);
    if contains(base, " | "@) {
        lemma_contains_sub(ts, 0, base.len() as int, " | "@);
    }
    let out = add_simple_ts_import(ts, imports);
    if !is_ts_builtin(base) && !imports.contains(base) {
        assert(out[imports.len() as int] == base);
    }
}

/// Adding the parts of a union adds only names as `collect_ts_import` may
/// add, and leaves every part's base builtin or present.
proof fn lemma_add_parts_new(parts: Seq<Seq<char>>, imports: Seq<Seq<char>>)
    requires
        forall|i: int| 0 <= i < parts.len() ==> !contains(#[trigger] trim(parts[i]), " | "@),
    ensures
        forall|j: int|
            imports.len() <= j < add_ts_parts(parts, imports).len() ==> ts_import_name_ok(
                #[trigger] add_ts_parts(parts, imports)[j],
            ),
        forall|i: int|
            0 <= i < parts.len() ==> is_ts_builtin(ts_base(trim(#[trigger] parts[i]))) || add_ts_parts(
                parts,
                imports,
            ).contains(ts_base(trim(parts[i]))),
    decreases parts.len(),
{
    if parts.len() > 0 {
        let d = parts.drop_last();
        let inner = add_ts_parts(d, imports);
        assert forall|i: int| 0 <= i < d.len() implies !contains(#[trigger] trim(d[i]), " | "@) by {
            assert(d[i] == parts[i]);
        }
        lemma_add_parts_new(d, imports);
        lemma_add_ts_parts_keeps(d, imports);
        assert(!contains(trim(parts[parts.len() - 1]), " | "@));
        lemma_add_simple_new(trim(parts.last()), inner);
        lemma_add_simple_keeps(trim(parts.last()), inner);
        let out = add_ts_parts(parts, imports);
        assert forall|j: int| imports.len() <= j < out.len() implies ts_import_name_ok(#[trigger] out[j]) by {
            if j < inner.len() {
                assert(out.subrange(0, inner.len() as int)[j] == inner[j]);
            }
        }
        assert forall|i: int|
            0 <= i < parts.len() implies is_ts_builtin(ts_base(trim(#[trigger] parts[i]))) || out.contains(
                ts_base(trim(parts[i])),
            ) by {
            if i < d.len() {
                assert(d[i] == parts[i]);
                if inner.contains(ts_base(trim(d[i]))) {
                    assert(out.contains(ts_base(trim(d[i]))));
                }
            }
        }
    }
}

/// Adding parts whose bases are all builtin or present changes nothing.
proof fn lemma_add_parts_present(parts: Seq<Seq<char>>, imports: Seq<Seq<char>>)
    requires
        forall|i: int|
            0 <= i < parts.len() ==> is_ts_builtin(ts_base(trim(#[trigger] parts[i]))) || imports.contains(
                ts_base(trim(parts[i])),
            ),
    ensures
        add_ts_parts(parts, imports) == imports,
    decreases parts.len(),
{
    if parts.len() > 0 {
        let d = parts.drop_last();
        assert forall|i: int|
            0 <= i < d.len() implies is_ts_builtin(ts_base(trim(#[trigger] d[i]))) || imports.contains(
                ts_base(trim(d[i])),
            ) by {
            assert(d[i] == parts[i]);
        }
        lemma_add_parts_present(d, imports);
        assert(is_ts_builtin(ts_base(trim(parts[parts.len() - 1]))) || imports.contains(
            ts_base(trim(parts[parts.len() - 1])),
        ));
    }
}

/// The law of `collect_ts_import`: on imports without repeats, the old
/// imports stay first and in order, no repeat appears, every name added is
/// neither a TypeScript builtin nor an array nor a union, and collecting
/// the same type again changes nothing.
pub proof fn law_collect_ts_import(ts: Seq<char>, imports: Seq<Seq<char>>)
    requires
        no_dups(imports),
    ensures
        add_ts_import(ts, imports).len() >= imports.len(),
        add_ts_import(ts, imports).subrange(0, imports.len() as int) == imports,
        no_dups(add_ts_import(ts, imports)),
        forall|j: int|
            imports.len() <= j < add_ts_import(ts, imports).len() ==> ts_import_name_ok(
                #[trigger] add_ts_import(ts, imports)[j],
            ),
        add_ts_import(ts, add_ts_import(ts, imports)) == add_ts_import(ts, imports),
{
    reveal_strlit(" | ");
    let out = add_ts_import(ts, imports);
    lemma_ts_import_keeps(ts, imports);
    if contains(ts, " | "@) {
        let parts = split(ts, " | "@);
        lemma_add_ts_parts_keeps(parts, imports);
        lemma_split_pieces(ts, " | "@);
        assert forall|i: int| 0 <= i < parts.len() implies !contains(#[trigger] trim(parts[i]), " | "@) by {
            let p = parts[i];
            crate::text::lemma_trim_start_props(p);
            let u = crate::text::trim_start(p);
            crate::text::lemma_trim_end_props(u);
            if contains(trim(p), " | "@) {
                lemma_contains_sub(u, 0, trim(p).len() as int, " | "@);
                lemma_contains_sub(p, p.len() - u.len(), p.len() as int, " | "@);
            }
        }
        lemma_add_parts_new(parts, imports);
        lemma_add_parts_present(parts, out);
    } else {
        lemma_add_simple_keeps(ts, imports);
        lemma_add_simple_new(ts, imports);
        lemma_add_simple_new(ts, out);
    }
}

/// A string that begins with a non-empty opener ending in `<` and ends with
/// `>` is longer than the opener by at least one character.
pub proof fn lemma_open_close_len(s: Seq<char>, open: Seq<char>)
    requires
        open.len() > 0,
        open.last() == '<',
        starts_with(s, open),
        ends_with(s, ">"@),
        ">"@ == seq!['>'],
    ensures
        s.len() >= open.len() + 1,
        s.last() == '>',
{
    assert(s[open.len() - 1] == s.subrange(0, open.len() as int)[open.len() - 1]);
    assert(s.last() == s.subrange(s.len() - 1, s.len() as int)[0]);
}

// ─── Functions ──────────────────────────────────────────────────────────────

/// Remove extra spaces that syn/quote inserts around `::`, `<`, `>`, `&`.
pub fn normalize_spaces(s: &str) -> (r: String)
    ensures
        r@ == normalize_spaces_spec(s@),
{
    proof {
        reveal_strlit(" :: ");
        reveal_strlit(":: ");
        reveal_strlit(" ::");
        reveal_strlit(" <");
        reveal_strlit("< ");
        reveal_strlit(" >");
        reveal_strlit("> ");
        reveal_strlit("& ");
    }
    let s1 = replace_exec(s, " :: ", "::");
    let s2 = replace_exec(s1.as_str(), ":: ", "::");
    let s3 = replace_exec(s2.as_str(), " ::", "::");
    let s4 = replace_exec(s3.as_str(), " <", "<");
    let s5 = replace_exec(s4.as_str(), "< ", "<");
    let s6 = replace_exec(s5.as_str(), " >", ">");
    let s7 = replace_exec(s6.as_str(), "> ", ">");
    replace_exec(s7.as_str(), "& ", "&")
}

/// Capitalize the first character of a string.
pub fn capitalize(s: &str) -> (r: String)
    ensures
        r@ == capitalize_spec(s@),
        is_ascii_str(s@) ==> r@ == ascii_capitalized(s@),
{
    let v = chars_of(s);
    if v.len() == 0 {
        return String::new();
    }
    let mut r = upper_of_char(v[0]);
    let rest = string_of_range(&v, 1, v.len());
    r.append(rest.as_str());
    proof {
        if is_ascii_str(s@) {
            assert(is_ascii_char(s@[0]));
            assert(r@ =~= ascii_capitalized(s@));
        }
    }
    r
}

/// Strip the leading `&` from a type string.
pub fn strip_ref(ty: &str) -> (r: String)
    ensures
        r@ == strip_ref_spec(ty@),
        r@ == trim(r@),
{
    let t = trim_exec(ty);
    let v = chars_of(t.as_str());
    proof {
        lemma_trim_idem(ty@);
    }
    if v.len() > 0 && v[0] == '&' {
        let rest = string_of_range(&v, 1, v.len());
        let r = trim_exec(rest.as_str());
        proof {
            lemma_trim_idem(rest@);
        }
        r
    } else {
        t
    }
}

/// Extract the input type name from a param type like `CreateNodeInput` or
/// `&CreateNodeInput`.
pub fn extract_input_type(ty: &str) -> (r: String)
    ensures
        r@ == strip_ref_spec(ty@),
{
    strip_ref(ty)
}

/// For a return type like `Vec<GraphNode>`, extract the inner type
/// `GraphNode`. For `GraphNode`, return `GraphNode`. For `()`, return `()`.
pub fn inner_type(ty: &str) -> (r: String)
    ensures
        r@ == inner_type_spec(ty@),
{
    proof {
        reveal_strlit("Vec<");
        reveal_strlit(">");
    }
    if str_starts_with(ty, "Vec<") && str_ends_with(ty, ">") {
        let v = chars_of(ty);
        proof {
            assert(">"@ =~= seq!['>']);
            lemma_open_close_len(ty@, "Vec<"@);
        }
        string_of_range(&v, 4, v.len() - 1)
    } else {
        owned(ty)
    }
}

/// Names that should never be added to the import list.
pub fn is_prelude_scalar(name: &str) -> (b: bool)
    ensures
        b == is_prelude_scalar_spec(name@),
{
    str_eq(name, "bool") || str_eq(name, "char") || str_eq(name, "i8") || str_eq(name, "i16") || str_eq(
        name,
        "i32",
    ) || str_eq(name, "i64") || str_eq(name, "i128") || str_eq(name, "isize") || str_eq(name, "u8") || str_eq(
        name,
        "u16",
    ) || str_eq(name, "u32") || str_eq(name, "u64") || str_eq(name, "u128") || str_eq(name, "usize") || str_eq(
        name,
        "f32",
    ) || str_eq(name, "f64") || str_eq(name, "String") || str_eq(name, "str") || str_eq(name, "PathBuf")
        || str_eq(name, "Path")
}

/// Convert a function name like `graph_updated` to an event name like
/// `graph-updated`.
pub fn event_name(fn_name: &str) -> (r: String)
    ensures
        r@ == replace_char(fn_name@, '_', '-'),
        !r@.contains('_'),
{
    proof {
        lemma_replace_char_removes(fn_name@, '_', '-');
    }
    replace_char_exec(fn_name, '_', '-')
}

/// Convert a snake_case string to PascalCase.
pub fn to_pascal_case(s: &str) -> (r: String)
    ensures
        r@ == pascal_from(s@, true),
{
    let v = chars_of(s);
    let mut r = String::new();
    let mut start = true;
    let mut i: usize = 0;
    assert(v@.subrange(0, v@.len() as int) =~= v@);
    while i < v.len()
        invariant
            i <= v.len(),
            v@ == s@,
            r@ + pascal_from(v@.subrange(i as int, v@.len() as int), start) == pascal_from(s@, true),
        decreases v.len() - i,
    {
        let ghost t = v@.subrange(i as int, v@.len() as int);
        assert(t.subrange(1, t.len() as int) =~= v@.subrange(i + 1, v@.len() as int));
        let c = v[i];
        if c == '_' {
            start = true;
        } else if start {
            let u = upper_of_char(c);
            r.append(u.as_str());
            start = false;
        } else {
            push_char(&mut r, c);
        }
        i = i + 1;
    }
    assert(v@.subrange(i as int, v@.len() as int) =~= Seq::<char>::empty());
    r
}

/// Convert a Rust param type to its owned form for struct fields.
pub fn param_to_owned_type(ty: &str) -> (r: String)
    requires
        owned_type_ok(ty@),
    ensures
        r@ == owned_type_spec(ty@),
    decreases ty@.len(),
{
    proof {
        reveal_strlit("Option<");
    }
    if str_starts_with(ty, "Option<") {
        let v = chars_of(ty);
        let inner = string_of_range(&v, 7, v.len() - 1);
        let owned_inner = param_to_owned_type(inner.as_str());
        let mut r = String::from_str("Option<");
        r.append(owned_inner.as_str());
        r.append(">");
        r
    } else if str_eq(ty, "&str") || str_eq(ty, "& str") {
        String::from_str("String")
    } else {
        strip_ref(ty)
    }
}

/// Convert snake_case to camelCase.
pub fn snake_to_camel(s: &str) -> (r: String)
    ensures
        r@ == camel_from(s@, false),
{
    let v = chars_of(s);
    let mut result = String::new();
    let mut capitalize_next = false;
    let mut i: usize = 0;
    assert(v@.subrange(0, v@.len() as int) =~= v@);
    while i < v.len()
        invariant
            i <= v.len(),
            v@ == s@,
            result@ + camel_from(v@.subrange(i as int, v@.len() as int), capitalize_next) == camel_from(
                s@,
                false,
            ),
        decreases v.len() - i,
    {
        let ghost t = v@.subrange(i as int, v@.len() as int);
        assert(t.subrange(1, t.len() as int) =~= v@.subrange(i + 1, v@.len() as int));
        let c = v[i];
        if c == '_' {
            capitalize_next = true;
        } else if capitalize_next {
            push_char(&mut result, ascii_upper_exec(c));
            capitalize_next = false;
        } else {
            push_char(&mut result, c);
        }
        i = i + 1;
    }
    assert(v@.subrange(i as int, v@.len() as int) =~= Seq::<char>::empty());
    result
}

/// Map a Rust return type to a TypeScript type string.
pub fn rust_type_to_ts(ty: &str) -> (r: String)
    ensures
        r@ == ts_type_spec(ty@),
    decreases ty@.len(),
{
    proof {
        reveal_strlit("Option<");
        reveal_strlit("Vec<");
        reveal_strlit(">");
        lemma_trim_len(ty@);
    }
    let t = trim_exec(ty);
    let ts = t.as_str();
    if str_eq(ts, "()") {
        return String::from_str("null");
    }
    if str_eq(ts, "String") || str_eq(ts, "&str") || str_eq(ts, "str") {
        return String::from_str("string");
    }
    if str_eq(ts, "i32") || str_eq(ts, "i64") || str_eq(ts, "u32") || str_eq(ts, "u64") || str_eq(ts, "f32")
        || str_eq(ts, "f64") {
        return String::from_str("number");
    }
    if str_eq(ts, "bool") {
        return String::from_str("boolean");
    }
    let v = chars_of(ts);
    if v.len() > 0 && v[0] == '&' {
        let rest = string_of_range(&v, 1, v.len());
        let inner = trim_exec(rest.as_str());
        proof {
            lemma_trim_len(rest@);
        }
        return rust_type_to_ts(inner.as_str());
    }
    if str_starts_with(ts, "Option<") && str_ends_with(ts, ">") {
        proof {
            assert(">"@ =~= seq!['>']);
            lemma_open_close_len(t@, "Option<"@);
        }
        let inner = string_of_range(&v, 7, v.len() - 1);
        let mut r = rust_type_to_ts(inner.as_str());
        r.append(" | null");
        return r;
    }
    if str_starts_with(ts, "Vec<") && str_ends_with(ts, ">") {
        proof {
            assert(">"@ =~= seq!['>']);
            lemma_open_close_len(t@, "Vec<"@);
        }
        let inner = string_of_range(&v, 4, v.len() - 1);
        let mut r = rust_type_to_ts(inner.as_str());
        r.append("[]");
        return r;
    }
    if str_contains(ts, "::") {
        proof {
            reveal_strlit("::");
        }
        let parts = split_exec(ts, "::");
        proof {
            lemma_split_nonempty(t@, "::"@);
        }
        if parts.len() == 2 && str_eq(parts[1].as_str(), "Model") {
            let mut r = capitalize(parts[0].as_str());
            r.append(parts[1].as_str());
            return r;
        }
        let last = parts.len() - 1;
        return owned(parts[last].as_str());
    }
    t
}

/// Collect TS type imports (skip primitives and null).
pub fn collect_ts_import(ts_type: &str, imports: &mut Vec<String>)
    ensures
        final(imports).deep_view() == add_ts_import(ts_type@, old(imports).deep_view()),
{
    proof {
        reveal_strlit(" | ");
    }
    if str_contains(ts_type, " | ") {
        let parts = split_exec(ts_type, " | ");
        let ghost p = parts.deep_view();
        let ghost start = imports.deep_view();
        let mut i: usize = 0;
        while i < parts.len()
            invariant
                i <= parts.len(),
                parts.deep_view() == p,
                imports.deep_view() == add_ts_parts(p.subrange(0, i as int), start),
            decreases parts.len() - i,
        {
            let part = trim_exec(parts[i].as_str());
            collect_simple_ts_import(part.as_str(), imports);
            assert(p.subrange(0, i + 1).drop_last() =~= p.subrange(0, i as int));
            i = i + 1;
        }
        assert(p.subrange(0, i as int) =~= p);
    } else {
        collect_simple_ts_import(ts_type, imports);
    }
}

/// A `Vec<String>` holds `s`.
pub fn vec_contains_str(v: &Vec<String>, s: &str) -> (b: bool)
    ensures
        b == v.deep_view().contains(s@),
{
    let mut i: usize = 0;
    while i < v.len()
        invariant
            i <= v.len(),
            forall|j: int| 0 <= j < i ==> v.deep_view()[j] != s@,
        decreases v.len() - i,
    {
        if str_eq(v[i].as_str(), s) {
            assert(v.deep_view()[i as int] == s@);
            return true;
        }
        i = i + 1;
    }
    false
}

/// Remove every trailing copy of `p` from `v`.
fn trim_end_matches_exec(v: &Vec<char>, p: &Vec<char>) -> (r: usize)
    requires
        p@.len() > 0,
    ensures
        r <= v.len(),
        trim_end_matches(v@, p@) == v@.subrange(0, r as int),
{
    let mut n: usize = v.len();
    assert(v@.subrange(0, n as int) =~= v@);
    loop
        invariant
            n <= v.len(),
            p@.len() > 0,
            trim_end_matches(v@, p@) == trim_end_matches(v@.subrange(0, n as int), p@),
        decreases n,
    {
        let ghost t = v@.subrange(0, n as int);
        if p.len() > n {
            return n;
        }
        if occurs_at_exec(v, p, n - p.len()) {
            assert(t.subrange(t.len() - p@.len(), t.len() as int) =~= v@.subrange(n - p@.len(), n as int));
            assert(t.subrange(0, t.len() - p@.len()) =~= v@.subrange(0, n - p@.len()));
            n = n - p.len();
        } else {
            assert(t.subrange(t.len() - p@.len(), t.len() as int) =~= v@.subrange(n - p@.len(), n as int));
            return n;
        }
    }
}

fn collect_simple_ts_import(ts: &str, imports: &mut Vec<String>)
    ensures
        final(imports).deep_view() == add_simple_ts_import(ts@, old(imports).deep_view()),
{
    proof {
        reveal_strlit("[]");
    }
    let v = chars_of(ts);
    let pv = chars_of("[]");
    let n = trim_end_matches_exec(&v, &pv);
    let base = string_of_range(&v, 0, n);
    let b = base.as_str();
    if str_eq(b, "null") || str_eq(b, "void") || str_eq(b, "string") || str_eq(b, "number") || str_eq(
        b,
        "boolean",
    ) || n == 0 {
        return;
    }
    if !vec_contains_str(imports, b) {
        let ghost before = imports.deep_view();
        imports.push(base);
        assert(imports.deep_view() =~= before.push(b@));
    }
}

// ─── Overrides ──────────────────────────────────────────────────────────────

/// A string-to-string override table: the value set for a key, if any.
///
/// Entries are kept in insertion order; inserting a key that is present
/// replaces its value in place.
#[derive(Debug, Clone)]
pub struct Overrides {
    entries: Vec<(String, String)>,
}

/// The first value stored under `k`.
pub open spec fn lookup(entries: Seq<(Seq<char>, Seq<char>)>, k: Seq<char>) -> Option<Seq<char>>
    decreases entries.len(),
{
    if entries.len() == 0 {
        None
    } else if entries[0].0 == k {
        Some(entries[0].1)
    } else {
        lookup(entries.subrange(1, entries.len() as int), k)
    }
}

impl Overrides {
    /// The entries as pairs of character sequences.
    pub closed spec fn pairs(&self) -> Seq<(Seq<char>, Seq<char>)> {
        self.entries@.map_values(|e: (String, String)| (e.0@, e.1@))
    }

    /// The value overriding `k`, if any.
    pub open spec fn get_spec(&self, k: Seq<char>) -> Option<Seq<char>> {
        lookup(self.pairs(), k)
    }

    /// An empty table.
    pub fn new() -> (r: Overrides)
        ensures
            forall|k: Seq<char>| r.get_spec(k) is None,
            r.pairs().len() == 0,
    {
        let r = Overrides { entries: Vec::new() };
        assert(r.pairs() =~= Seq::<(Seq<char>, Seq<char>)>::empty());
        r
    }

    /// Number of keys.
    pub fn len(&self) -> (n: usize)
        ensures
            n == self.pairs().len(),
    {
        self.entries.len()
    }

    /// Whether no key is set.
    pub fn is_empty(&self) -> (b: bool)
        ensures
            b == (self.pairs().len() == 0),
    {
        self.entries.len() == 0
    }

    /// The value overriding `k`.
    pub fn get(&self, k: &str) -> (r: Option<String>)
        ensures
            match r {
                Some(v) => self.get_spec(k@) == Some(v@),
                None => self.get_spec(k@) is None,
            },
    {
        let mut i: usize = 0;
        assert(self.pairs().subrange(0, self.pairs().len() as int) =~= self.pairs());
        while i < self.entries.len()
            invariant
                i <= self.entries.len(),
                lookup(self.pairs(), k@) == lookup(self.pairs().subrange(i as int, self.pairs().len() as int), k@),
            decreases self.entries.len() - i,
        {
            let ghost t = self.pairs().subrange(i as int, self.pairs().len() as int);
            assert(t[0] == self.pairs()[i as int]);
            if str_eq(self.entries[i].0.as_str(), k) {
                return Some(self.entries[i].1.clone());
            }
            assert(t.subrange(1, t.len() as int) =~= self.pairs().subrange(i + 1, self.pairs().len() as int));
            i = i + 1;
        }
        None
    }

    /// Set the value for `k`, returning the value it replaced.
    pub fn insert(&mut self, k: String, v: String) -> (r: Option<String>)
        ensures
            final(self).get_spec(k@) == Some(v@),
            forall|j: Seq<char>| j != k@ ==> final(self).get_spec(j) == old(self).get_spec(j),
            match r {
                Some(x) => old(self).get_spec(k@) == Some(x@),
                None => old(self).get_spec(k@) is None,
            },
    {
        let ghost before = self.pairs();
        assert(before == old(self).pairs());
        let mut i: usize = 0;
        while i < self.entries.len()
            invariant
                i <= self.entries.len(),
                self.pairs() == before,
                before == old(self).pairs(),
                forall|j: int| 0 <= j < i ==> before[j].0 != k@,
            decreases self.entries.len() - i,
        {
            if str_eq(self.entries[i].0.as_str(), k.as_str()) {
                let old_v = self.entries[i].1.clone();
                let ghost kv = (k@, v@);
                self.entries.set(i, (k, v));
                assert(self.pairs() =~= before.update(i as int, kv));
                proof {
                    assert(before[i as int].0 == k@);
                    assert(before[i as int].1 == old_v@);
                    lemma_lookup_update(before, i as int, kv.0, kv.1);
                    assert(self.get_spec(k@) == Some(v@));
                    assert forall|j: Seq<char>| j != k@ implies self.get_spec(j) == old(self).get_spec(j) by {
                        assert(lookup(before.update(i as int, kv), j) == lookup(before, j));
                    }
                }
                return Some(old_v);
            }
            i = i + 1;
        }
        let ghost kv = (k@, v@);
        self.entries.push((k, v));
        assert(self.pairs() =~= before.push(kv));
        proof {
            lemma_lookup_push(before, k@, v@);
        }
        None
    }

    /// Whether `k` is set.
    pub fn contains_key(&self, k: &str) -> (b: bool)
        ensures
            b == self.get_spec(k@) is Some,
    {
        self.get(k).is_some()
    }
}

impl Default for Overrides {
    fn default() -> (r: Overrides)
        ensures
            forall|k: Seq<char>| r.get_spec(k) is None,
    {
        Overrides::new()
    }
}

proof fn lemma_lookup_skip(e: Seq<(Seq<char>, Seq<char>)>, i: int, k: Seq<char>)
    requires
        0 <= i <= e.len(),
        forall|j: int| 0 <= j < i ==> e[j].0 != k,
    ensures
        lookup(e, k) == lookup(e.subrange(i, e.len() as int), k),
    decreases i,
{
    if i > 0 {
        let t = e.subrange(1, e.len() as int);
        lemma_lookup_skip(t, i - 1, k);
        assert(t.subrange(i - 1, t.len() as int) =~= e.subrange(i, e.len() as int));
    } else {
        assert(e.subrange(0, e.len() as int) =~= e);
    }
}

proof fn lemma_lookup_update(e: Seq<(Seq<char>, Seq<char>)>, i: int, k: Seq<char>, v: Seq<char>)
    requires
        0 <= i < e.len(),
        e[i].0 == k,
        forall|j: int| 0 <= j < i ==> e[j].0 != k,
    ensures
        lookup(e.update(i, (k, v)), k) == Some(v),
        lookup(e, k) == Some(e[i].1),
        forall|j: Seq<char>| j != k ==> lookup(e.update(i, (k, v)), j) == lookup(e, j),
    decreases i,
{
    let u = e.update(i, (k, v));
    lemma_lookup_skip(e, i, k);
    lemma_lookup_skip(u, i, k);
    assert(u.subrange(i, u.len() as int)[0] == (k, v));
    assert(e.subrange(i, e.len() as int)[0] == e[i]);
    assert forall|j: Seq<char>| j != k implies lookup(u, j) == lookup(e, j) by {
        lemma_lookup_other(e, i, k, v, j);
    }
}

proof fn lemma_lookup_other(e: Seq<(Seq<char>, Seq<char>)>, i: int, k: Seq<char>, v: Seq<char>, j: Seq<char>)
    requires
        0 <= i < e.len(),
        e[i].0 == k,
        j != k,
    ensures
        lookup(e.update(i, (k, v)), j) == lookup(e, j),
    decreases e.len(),
{
    let u = e.update(i, (k, v));
    if i == 0 {
        assert(u.subrange(1, u.len() as int) =~= e.subrange(1, e.len() as int));
    } else {
        let te = e.subrange(1, e.len() as int);
        lemma_lookup_other(te, i - 1, k, v, j);
        assert(u.subrange(1, u.len() as int) =~= te.update(i - 1, (k, v)));
    }
}

proof fn lemma_lookup_push(e: Seq<(Seq<char>, Seq<char>)>, k: Seq<char>, v: Seq<char>)
    requires
        forall|j: int| 0 <= j < e.len() ==> e[j].0 != k,
    ensures
        lookup(e.push((k, v)), k) == Some(v),
        lookup(e, k) is None,
        forall|j: Seq<char>| j != k ==> lookup(e.push((k, v)), j) == lookup(e, j),
    decreases e.len(),
{
    let p = e.push((k, v));
    if e.len() > 0 {
        let te = e.subrange(1, e.len() as int);
        lemma_lookup_push(te, k, v);
        assert(p.subrange(1, p.len() as int) =~= te.push((k, v)));
        assert(p[0] == e[0]);
        assert forall|j: Seq<char>| j != k implies lookup(p, j) == lookup(e, j) by {
            if e[0].0 != j {
                assert(lookup(p, j) == lookup(te.push((k, v)), j));
                assert(lookup(e, j) == lookup(te, j));
            }
        }
    } else {
        assert(p.subrange(1, p.len() as int) =~= Seq::<(Seq<char>, Seq<char>)>::empty());
        assert forall|j: Seq<char>| j != k implies lookup(p, j) == lookup(e, j) by {
            assert(lookup(p, j) == lookup(Seq::<(Seq<char>, Seq<char>)>::empty(), j));
        }
    }
}

// ─── Naming ─────────────────────────────────────────────────────────────────

/// The plural `cruet` gives a word.
pub uninterp spec fn cruet_plural(s: Seq<char>) -> Seq<char>;

/// The singular `cruet` gives a word.
pub uninterp spec fn cruet_singular(s: Seq<char>) -> Seq<char>;

/// `cruet::to_plural`: the word's plural by Rails-style inflection rules.
#[verifier::external_body]
fn plural_of_word(s: &str) -> (r: String)
    ensures
        r@ == cruet_plural(s@),
{
    cruet::to_plural(s)
}

/// `cruet::to_singular`: the word's singular by Rails-style inflection rules.
#[verifier::external_body]
fn singular_of_word(s: &str) -> (r: String)
    ensures
        r@ == cruet_singular(s@),
{
    cruet::to_singular(s)
}

/// Naming configuration for modules - handles pluralization and URL
/// singularization.
///
/// Uses `cruet` for Rails-style inflection (handles irregular words like
/// "dependencies" → "dependency"). Override maps take precedence over cruet.
#[derive(Debug, Clone)]
pub struct NamingConfig {
    /// Overrides for module → plural form (e.g., "evidence" → "evidence").
    pub plural_overrides: Overrides,
    /// Overrides for module → singular form (e.g., "work_sessions" → "session").
    pub singular_overrides: Overrides,
    /// Overrides for module → human label (e.g., "work_session" → "Work Session").
    pub label_overrides: Overrides,
    /// Overrides for module → human plural label (e.g., "evidence" → "Evidence").
    pub plural_label_overrides: Overrides,
    /// Modules that are singletons (a single entity, not a collection).
    pub singleton_modules: Vec<String>,
    /// Per-function command-name overrides, keyed `"module::fn_name"`.
    pub command_overrides: Overrides,
}

impl Default for NamingConfig {
    fn default() -> (r: NamingConfig)
        ensures
            forall|k: Seq<char>| r.plural_overrides.get_spec(k) is None,
            forall|k: Seq<char>| r.singular_overrides.get_spec(k) is None,
            forall|k: Seq<char>| r.label_overrides.get_spec(k) is None,
            forall|k: Seq<char>| r.plural_label_overrides.get_spec(k) is None,
            forall|k: Seq<char>| r.command_overrides.get_spec(k) is None,
            r.singleton_modules@.len() == 0,
    {
        NamingConfig {
            plural_overrides: Overrides::new(),
            singular_overrides: Overrides::new(),
            label_overrides: Overrides::new(),
            plural_label_overrides: Overrides::new(),
            singleton_modules: Vec::new(),
            command_overrides: Overrides::new(),
        }
    }
}

/// The override if there is one, else the fallback.
pub open spec fn or_else(o: Option<Seq<char>>, fallback: Seq<char>) -> Seq<char> {
    match o {
        Some(v) => v,
        None => fallback,
    }
}

/// The URL action segment for a custom function, given the module's plural.
pub open spec fn derive_action_spec(module: Seq<char>, plural: Seq<char>, fn_name: Seq<char>) -> Seq<char> {
    let a0 = if starts_with(fn_name, "get_"@) {
        fn_name.subrange("get_"@.len() as int, fn_name.len() as int)
    } else {
        fn_name
    };
    if a0 == module || a0 == plural {
        Seq::empty()
    } else {
        let mp = module + "_"@;
        let a1 = if starts_with(a0, mp) {
            a0.subrange(mp.len() as int, a0.len() as int)
        } else {
            a0
        };
        let ps = "_"@ + plural;
        let a2 = if ends_with(a1, ps) {
            a1.subrange(0, a1.len() - ps.len())
        } else {
            a1
        };
        let ms = "_"@ + module;
        let a3 = if ends_with(a2, ms) {
            a2.subrange(0, a2.len() - ms.len())
        } else {
            a2
        };
        replace_char(a3, '_', '-')
    }
}

/// Remove `p` from the front of `s` when it is there.
fn strip_prefix_owned(s: String, p: &str) -> (r: String)
    ensures
        r@ == (if starts_with(s@, p@) {
            s@.subrange(p@.len() as int, s@.len() as int)
        } else {
            s@
        }),
{
    if str_starts_with(s.as_str(), p) {
        let v = chars_of(s.as_str());
        let pv = chars_of(p);
        string_of_range(&v, pv.len(), v.len())
    } else {
        s
    }
}

/// Remove `p` from the end of `s` when it is there.
fn strip_suffix_owned(s: String, p: &str) -> (r: String)
    ensures
        r@ == (if ends_with(s@, p@) {
            s@.subrange(0, s@.len() - p@.len())
        } else {
            s@
        }),
{
    if str_ends_with(s.as_str(), p) {
        let v = chars_of(s.as_str());
        let pv = chars_of(p);
        string_of_range(&v, 0, v.len() - pv.len())
    } else {
        s
    }
}

impl NamingConfig {
    /// The plural of a module name: the override, else cruet's.
    pub open spec fn plural_spec(&self, module: Seq<char>) -> Seq<char> {
        or_else(self.plural_overrides.get_spec(module), cruet_plural(module))
    }

    /// The singular of a module name: the override, else cruet's.
    pub open spec fn singular_spec(&self, module: Seq<char>) -> Seq<char> {
        or_else(self.singular_overrides.get_spec(module), cruet_singular(module))
    }

    /// The label of a module name: the override, else the name capitalized.
    pub open spec fn label_spec(&self, module: Seq<char>) -> Seq<char> {
        or_else(self.label_overrides.get_spec(module), capitalize_spec(module))
    }

    /// Get the plural form of a module name.
    ///
    /// Checks `plural_overrides` first, then uses `cruet::to_plural`.
    pub fn module_plural(&self, module: &str) -> (r: String)
        ensures
            r@ == self.plural_spec(module@),
    {
        match self.plural_overrides.get(module) {
            Some(v) => v,
            None => plural_of_word(module),
        }
    }

    /// Get the singular form of a module name.
    ///
    /// Checks `singular_overrides` first, then uses `cruet::to_singular`.
    pub fn url_singular(&self, module: &str) -> (r: String)
        ensures
            r@ == self.singular_spec(module@),
    {
        match self.singular_overrides.get(module) {
            Some(v) => v,
            None => singular_of_word(module),
        }
    }

    /// Get the plural form for URL paths (kebab-case).
    /// e.g., "agents" → "agents", "skill_files" → "skill-files".
    pub fn url_plural(&self, module: &str) -> (r: String)
        ensures
            r@ == replace_char(self.plural_spec(module@), '_', '-'),
            !r@.contains('_'),
    {
        let p = self.module_plural(module);
        proof {
            lemma_replace_char_removes(p@, '_', '-');
        }
        replace_char_exec(p.as_str(), '_', '-')
    }

    /// Get the human-readable label for a module.
    pub fn label(&self, module: &str) -> (r: String)
        ensures
            r@ == self.label_spec(module@),
    {
        match self.label_overrides.get(module) {
            Some(v) => v,
            None => capitalize(module),
        }
    }

    /// Get the human-readable plural label for a module.
    pub fn plural_label(&self, module: &str) -> (r: String)
        ensures
            r@ == or_else(self.plural_label_overrides.get_spec(module@), cruet_plural(self.label_spec(module@))),
    {
        match self.plural_label_overrides.get(module) {
            Some(v) => v,
            None => {
                let label = self.label(module);
                plural_of_word(label.as_str())
            },
        }
    }

    /// Derive the URL action segment for a custom function.
    pub fn derive_action(&self, module: &str, fn_name: &str) -> (r: String)
        ensures
            r@ == derive_action_spec(module@, self.plural_spec(module@), fn_name@),
            !r@.contains('_'),
    {
        proof {
            reveal_strlit("get_");
            reveal_strlit("_");
        }
        let action = strip_prefix_owned(owned(fn_name), "get_");
        let plural = self.module_plural(module);
        if str_eq(action.as_str(), module) || str_eq(action.as_str(), plural.as_str()) {
            assert(derive_action_spec(module@, plural@, fn_name@) =~= Seq::<char>::empty());
            return String::new();
        }
        let mut mp = owned(module);
        mp.append("_");
        let action = strip_prefix_owned(action, mp.as_str());
        let mut ps = String::from_str("_");
        ps.append(plural.as_str());
        let action = strip_suffix_owned(action, ps.as_str());
        let mut ms = String::from_str("_");
        ms.append(module);
        let action = strip_suffix_owned(action, ms.as_str());
        proof {
            lemma_replace_char_removes(action@, '_', '-');
        }
        replace_char_exec(action.as_str(), '_', '-')
    }
}

} // verus!
