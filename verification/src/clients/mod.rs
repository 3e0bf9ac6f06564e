//! Client-side TypeScript surface: the schema-known bindings, the long-tail
//! root set, and the decisions of the client generation run.

pub mod config;
pub mod ts_bindings;

use vstd::prelude::*;

use crate::clients::config::{ClientGenerator, Config};
use crate::clients::ts_bindings::{
    add_new, bindings_text, emit, is_sorted_set_of, long_tail, long_tail_spec, modules_refs,
};
use crate::servers::merge::{apply_overlays, overlays_applied, ScanResult};
use crate::servers::parse::{decimal, usize_to_decimal, ApiFn, ApiModule, Param};
use crate::servers::scan::SkipRecord;
use crate::servers::types::{
    camel_from, rust_type_to_ts, snake_to_camel, strip_ref, strip_ref_spec, ts_type_spec, vec_contains_str,
};
use crate::order::sorted_set;
use crate::schema::model::EntityDef;
use crate::servers::manifest::{package_name_from_manifest, scan_lines};
use crate::text::{
    chars_of, contains, ends_with, find, index_of, join, join_exec, lemma_index_of_bounds, lemma_index_of_first,
    lemma_trim_end_props, lemma_trim_end_take, occurs_at, starts_with, str_contains, str_ends_with, str_eq,
    replace_char, replace_char_exec, split, str_starts_with, string_of_range, trim_end, trim_end_exec,
};

verus! {

// ─── Parameters ─────────────────────────────────────────────────────────────

/// One TypeScript parameter of a custom function: an `Input` parameter
/// becomes `input`, an `Option<_>` keeps its nullable type, any other is
/// typed from its dereferenced type; names go to camelCase.
pub open spec fn ts_param_spec(p: Param) -> Seq<char> {
    if contains(p.ty@, "Input"@) {
        "input: "@ + ts_type_spec(strip_ref_spec(p.ty@))
    } else if starts_with(p.ty@, "Option<"@) {
        camel_from(p.name@, false) + ": "@ + ts_type_spec(p.ty@)
    } else {
        camel_from(p.name@, false) + ": "@ + ts_type_spec(strip_ref_spec(p.ty@))
    }
}

/// The TypeScript parameter list for a custom function, in Rust
/// declaration order, which every generated surface shares.
pub fn ts_params_in_declaration_order(f: &ApiFn) -> (r: Vec<String>)
    ensures
        r.deep_view() == f.params@.map_values(|p: Param| ts_param_spec(p)),
{
    let mut out: Vec<String> = Vec::new();
    let mut i: usize = 0;
    while i < f.params.len()
        invariant
            i <= f.params.len(),
            out.deep_view() == f.params@.subrange(0, i as int).map_values(|p: Param| ts_param_spec(p)),
        decreases f.params.len() - i,
    {
        let p = &f.params[i];
        let ghost before = out.deep_view();
        let item = if str_contains(p.ty.as_str(), "Input") {
            let inner = strip_ref(p.ty.as_str());
            let t = rust_type_to_ts(inner.as_str());
            let mut s = String::from_str("input: ");
            s.append(t.as_str());
            s
        } else if str_starts_with(p.ty.as_str(), "Option<") {
            let t = rust_type_to_ts(p.ty.as_str());
            let mut s = snake_to_camel(p.name.as_str());
            s.append(": ");
            s.append(t.as_str());
            s
        } else {
            let inner = strip_ref(p.ty.as_str());
            let t = rust_type_to_ts(inner.as_str());
            let mut s = snake_to_camel(p.name.as_str());
            s.append(": ");
            s.append(t.as_str());
            s
        };
        out.push(item);
        assert(f.params@.subrange(0, i + 1).map_values(|p: Param| ts_param_spec(p)) =~= before.push(
            ts_param_spec(*p),
        ));
        i = i + 1;
    }
    assert(f.params@.subrange(0, i as int) =~= f.params@);
    out
}

// ─── Bindings files ─────────────────────────────────────────────────────────

/// The bindings files the generators read, each once, in order of first
/// mention.
pub open spec fn bindings_targets_spec(gs: Seq<ClientGenerator>) -> Seq<Seq<char>>
    decreases gs.len(),
{
    if gs.len() == 0 {
        Seq::empty()
    } else {
        add_new(bindings_targets_spec(gs.drop_last()), gs.last().bindings_spec())
    }
}

/// The distinct bindings files the schema-known aliases are written to:
/// each HTTP or HTTP+IPC client's `bindings_path`, once, in order.
pub fn bindings_targets(generators: &Vec<ClientGenerator>) -> (r: Vec<String>)
    ensures
        r.deep_view() == bindings_targets_spec(generators@),
{
    let mut out: Vec<String> = Vec::new();
    let mut i: usize = 0;
    assert(generators@.subrange(0, 0) =~= Seq::<ClientGenerator>::empty());
    while i < generators.len()
        invariant
            i <= generators.len(),
            out.deep_view() == bindings_targets_spec(generators@.subrange(0, i as int)),
        decreases generators.len() - i,
    {
        let g = &generators[i];
        let ghost s = generators@.subrange(0, i + 1);
        assert(s.drop_last() =~= generators@.subrange(0, i as int));
        assert(s.last() == *g);
        match g.bindings_path() {
            Some(p) => {
                if !vec_contains_str(&out, p.as_str()) {
                    let ghost before = out.deep_view();
                    out.push(p.clone());
                    assert(out.deep_view() =~= before.push(p@));
                }
            },
            None => {},
        }
        i = i + 1;
    }
    assert(generators@.subrange(0, i as int) =~= generators@);
    out
}

/// The comment line that opens the long-tail section of a bindings file.
pub const LONG_TAIL_MARKER: &'static str = "// Long-tail types (emitted via ontogen-ts AST walker).";

/// The marker line, as characters.
pub open spec fn long_tail_marker() -> Seq<char> {
    LONG_TAIL_MARKER@
}

/// The part of a bindings file before its long-tail section (all of it
/// when there is none), without trailing whitespace.
pub open spec fn strip_spec(text: Seq<char>) -> Seq<char> {
    match index_of(text, long_tail_marker()) {
        Some(i) => trim_end(text.subrange(0, i)),
        None => trim_end(text),
    }
}

/// A bindings file made of `base` and a long-tail section holding `ts`:
/// the base, a blank line, the marker and the TypeScript; the marker leads
/// the file when there is no base; a final newline is added when the text
/// lacks one.
pub open spec fn section_spec(base: Seq<char>, ts: Seq<char>) -> Seq<char> {
    let body = if base.len() == 0 {
        long_tail_marker() + "\n"@ + ts
    } else {
        base + "\n\n"@ + long_tail_marker() + "\n"@ + ts
    };
    if ends_with(body, "\n"@) {
        body
    } else {
        body + "\n"@
    }
}

/// A bindings file with its long-tail section set to `ts`, replacing any
/// section it had.
pub open spec fn appended_spec(existing: Seq<char>, ts: Seq<char>) -> Seq<char> {
    section_spec(strip_spec(existing), ts)
}

/// The part of a bindings file before its long-tail section, without
/// trailing whitespace; the whole file, trimmed at the end, when it has no
/// such section.
pub fn strip_long_tail(text: &str) -> (r: String)
    ensures
        r@ == strip_spec(text@),
{
    match find(text, LONG_TAIL_MARKER) {
        Some(i) => {
            let v = chars_of(text);
            let pre = string_of_range(&v, 0, i);
            trim_end_exec(pre.as_str())
        },
        None => trim_end_exec(text),
    }
}

/// Set the long-tail section of the text of a bindings file to `ts`,
/// replacing the section it had, if any.
pub fn append_long_tail(existing: &str, ts: &str) -> (r: String)
    ensures
        r@ == appended_spec(existing@, ts@),
{
    let base = strip_long_tail(existing);
    let mut s = String::new();
    if base.unicode_len() > 0 {
        s.append(base.as_str());
        s.append("\n\n");
    }
    s.append(LONG_TAIL_MARKER);
    s.append("\n");
    s.append(ts);
    proof {
        reveal_strlit("\n");
        reveal_strlit("\n\n");
        if base@.len() > 0 {
            assert(s@ =~= base@ + "\n\n"@ + long_tail_marker() + "\n"@ + ts@);
        } else {
            assert(s@ =~= long_tail_marker() + "\n"@ + ts@);
        }
    }
    if !str_ends_with(s.as_str(), "\n") {
        s.append("\n");
    }
    s
}

/// The marker is a single line: no newline in it, and it is not empty.
proof fn lemma_marker_line()
    ensures
        long_tail_marker().len() > 0,
        forall|i: int| 0 <= i < long_tail_marker().len() ==> long_tail_marker()[i] != '\n',
{
    reveal_strlit("// Long-tail types (emitted via ontogen-ts AST walker).");
}

/// A stripped base holds no marker.
proof fn lemma_strip_has_no_marker(text: Seq<char>)
    ensures
        forall|j: int| !occurs_at(strip_spec(text), long_tail_marker(), j),
{
    let m = long_tail_marker();
    lemma_index_of_first(text, m);
    let pre = match index_of(text, m) {
        Some(i) => text.subrange(0, i),
        None => text,
    };
    lemma_index_of_bounds(text, m);
    lemma_trim_end_props(pre);
    let b = strip_spec(text);
    lemma_marker_line();
    assert(b == pre.subrange(0, b.len() as int));
    assert forall|j: int| !occurs_at(b, m, j) by {
        if occurs_at(b, m, j) {
            assert(b.subrange(j, j + m.len()) =~= text.subrange(j, j + m.len()));
            assert(occurs_at(text, m, j));
            match index_of(text, m) {
                Some(i) => {
                    assert(j < i);
                },
                None => {},
            }
        }
    }
}

/// In a text made of `pre`, the marker and anything after it, where `pre`
/// holds no marker and is empty or ends with a newline, the first marker
/// is the one after `pre`.
proof fn lemma_first_marker_after(pre: Seq<char>, rest: Seq<char>)
    requires
        forall|j: int| !occurs_at(pre, long_tail_marker(), j),
        pre.len() == 0 || pre.last() == '\n',
    ensures
        index_of(pre + long_tail_marker() + rest, long_tail_marker()) == Some(pre.len() as int),
{
    let m = long_tail_marker();
    let t = pre + m + rest;
    lemma_marker_line();
    lemma_index_of_first(t, m);
    assert(t.subrange(pre.len() as int, (pre.len() + m.len()) as int) =~= m);
    assert(occurs_at(t, m, pre.len() as int));
    assert forall|j: int| 0 <= j < pre.len() implies !occurs_at(t, m, j) by {
        if occurs_at(t, m, j) {
            if j + m.len() <= pre.len() {
                assert(t.subrange(j, j + m.len()) =~= pre.subrange(j, j + m.len()));
                assert(occurs_at(pre, m, j));
            } else {
                let k = pre.len() - 1 - j;
                assert(t.subrange(j, j + m.len())[k] == t[pre.len() - 1]);
                assert(m[k] == '\n');
            }
        }
    }
    match index_of(t, m) {
        Some(i) => {
            if i < pre.len() {
                assert(!occurs_at(t, m, i));
            }
            if i > pre.len() {
                assert(!occurs_at(t, m, pre.len() as int));
            }
        },
        None => {},
    }
}

/// Stripping a file whose section was just set gives back the base it was
/// set on.
pub proof fn law_long_tail_strip_recovers_base(existing: Seq<char>, ts: Seq<char>)
    ensures
        strip_spec(appended_spec(existing, ts)) == strip_spec(existing),
{
    let base = strip_spec(existing);
    let m = long_tail_marker();
    let out = appended_spec(existing, ts);
    lemma_strip_has_no_marker(existing);
    lemma_marker_line();
    reveal_strlit("\n");
    reveal_strlit("\n\n");
    if base.len() == 0 {
        let body = m + "\n"@ + ts;
        let rest = if ends_with(body, "\n"@) { "\n"@ + ts } else { "\n"@ + ts + "\n"@ };
        assert(out =~= Seq::<char>::empty() + m + rest);
        lemma_first_marker_after(Seq::<char>::empty(), rest);
        assert(out.subrange(0, 0) =~= Seq::<char>::empty());
    } else {
        let pre = base + "\n\n"@;
        let body = base + "\n\n"@ + m + "\n"@ + ts;
        let rest = if ends_with(body, "\n"@) { "\n"@ + ts } else { "\n"@ + ts + "\n"@ };
        assert(out =~= pre + m + rest);
        assert forall|j: int| !occurs_at(pre, m, j) by {
            lemma_marker_line();
            if occurs_at(pre, m, j) {
                if j + m.len() <= base.len() {
                    assert(pre.subrange(j, j + m.len()) =~= base.subrange(j, j + m.len()));
                    assert(occurs_at(base, m, j));
                } else {
                    let q = if j <= base.len() { base.len() as int } else { j };
                    assert(pre[q] == '\n');
                    assert(pre.subrange(j, j + m.len())[q - j] == pre[q]);
                    assert(m[q - j] == '\n');
                }
            }
        }
        lemma_first_marker_after(pre, rest);
        assert(out.subrange(0, pre.len() as int) =~= pre);
        lemma_trim_end_take(pre, base.len() as int);
        assert(pre.subrange(0, base.len() as int) =~= base);
        match index_of(existing, m) {
            Some(i) => lemma_trim_end_props(existing.subrange(0, i)),
            None => lemma_trim_end_props(existing),
        }
        assert(trim_end(base) == base);
    }
}

/// A text made of `a` and `b` holds no marker when neither does and `b`
/// begins with a newline, which no marker crosses.
proof fn lemma_no_marker_join(a: Seq<char>, b: Seq<char>)
    requires
        forall|j: int| !occurs_at(a, long_tail_marker(), j),
        forall|j: int| !occurs_at(b, long_tail_marker(), j),
        (b.len() > 0 && b[0] == '\n') || (a.len() > 0 && a.last() == '\n'),
    ensures
        forall|j: int| !occurs_at(a + b, long_tail_marker(), j),
{
    let m = long_tail_marker();
    lemma_marker_line();
    assert forall|j: int| !occurs_at(a + b, m, j) by {
        if occurs_at(a + b, m, j) {
            let x = a + b;
            if j + m.len() <= a.len() {
                assert(x.subrange(j, j + m.len()) =~= a.subrange(j, j + m.len()));
                assert(occurs_at(a, m, j));
            } else if j >= a.len() {
                assert(x.subrange(j, j + m.len()) =~= b.subrange(j - a.len(), j - a.len() + m.len()));
                assert(occurs_at(b, m, j - a.len()));
            } else if b.len() > 0 && b[0] == '\n' {
                assert(x[a.len() as int] == '\n');
                assert(x.subrange(j, j + m.len())[a.len() - j] == x[a.len() as int]);
                assert(m[a.len() - j] == '\n');
            } else {
                assert(x[a.len() - 1] == '\n');
                assert(x.subrange(j, j + m.len())[a.len() - 1 - j] == x[a.len() - 1]);
                assert(m[a.len() - 1 - j] == '\n');
            }
        }
    }
}

/// Setting the long-tail section on any text leaves a file that begins with
/// the text's base, and, when the TypeScript holds no marker, exactly one
/// marker: the one that opens the section.
pub proof fn law_long_tail_single_marker(existing: Seq<char>, ts: Seq<char>)
    requires
        forall|j: int| !occurs_at(ts, long_tail_marker(), j),
    ensures
        starts_with(appended_spec(existing, ts), strip_spec(existing)),
        exists|p: int| occurs_at(appended_spec(existing, ts), long_tail_marker(), p),
        forall|p: int, q: int|
            occurs_at(appended_spec(existing, ts), long_tail_marker(), p) && occurs_at(
                appended_spec(existing, ts),
                long_tail_marker(),
                q,
            ) ==> p == q,
{
    let base = strip_spec(existing);
    let m = long_tail_marker();
    let out = appended_spec(existing, ts);
    lemma_marker_line();
    lemma_strip_has_no_marker(existing);
    reveal_strlit("\n");
    reveal_strlit("\n\n");
    let nl = "\n"@;
    assert forall|j: int| !occurs_at(nl, m, j) by {
        if occurs_at(nl, m, j) {
            assert(nl.subrange(j, j + m.len())[0] == nl[j]);
            assert(m[0] == '\n');
        }
    }
    lemma_no_marker_join(nl, ts);
    let t1 = nl + ts;
    let tail = if ends_with(t1, nl) { t1 } else { t1 + nl };
    if !ends_with(t1, nl) {
        lemma_no_marker_join(t1, nl);
    }
    assert(forall|j: int| !occurs_at(tail, m, j));
    assert(tail.len() > 0 && tail[0] == '\n');
    let pre = if base.len() == 0 { Seq::<char>::empty() } else { base + "\n\n"@ };
    let body = if base.len() == 0 { m + nl + ts } else { base + "\n\n"@ + m + nl + ts };
    assert(body =~= pre + m + t1);
    assert(body.subrange(body.len() - 1, body.len() as int) =~= t1.subrange(t1.len() - 1, t1.len() as int));
    assert(ends_with(body, nl) == ends_with(t1, nl));
    assert(out =~= pre + m + tail);
    assert forall|j: int| !occurs_at(pre, m, j) by {
        if base.len() > 0 && occurs_at(pre, m, j) {
            if j + m.len() <= base.len() {
                assert(pre.subrange(j, j + m.len()) =~= base.subrange(j, j + m.len()));
                assert(occurs_at(base, m, j));
            } else {
                let q = if j <= base.len() { base.len() as int } else { j };
                assert(pre[q] == '\n');
                assert(pre.subrange(j, j + m.len())[q - j] == pre[q]);
            }
        }
    }
    assert(out.subrange(pre.len() as int, (pre.len() + m.len()) as int) =~= m);
    assert(occurs_at(out, m, pre.len() as int));
    assert forall|p: int| occurs_at(out, m, p) implies p == pre.len() by {
        if p < pre.len() {
            if p + m.len() <= pre.len() {
                assert(out.subrange(p, p + m.len()) =~= pre.subrange(p, p + m.len()));
                assert(occurs_at(pre, m, p));
            } else {
                let k = pre.len() - 1 - p;
                assert(pre.len() > 0 && pre.last() == '\n');
                assert(out.subrange(p, p + m.len())[k] == out[pre.len() - 1]);
                assert(m[k] == '\n');
            }
        } else if p > pre.len() {
            if p >= pre.len() + m.len() {
                let r = p - pre.len() - m.len();
                assert(out.subrange(p, p + m.len()) =~= tail.subrange(r, r + m.len()));
                assert(occurs_at(tail, m, r));
            } else {
                let c = (pre.len() + m.len()) as int;
                assert(out[c] == tail[0]);
                assert(out.subrange(p, p + m.len())[c - p] == out[c]);
                assert(m[c - p] == '\n');
            }
        }
    }
    if base.len() > 0 {
        assert(out.subrange(0, base.len() as int) =~= base);
    } else {
        assert(out.subrange(0, 0) =~= base);
    }
}

/// Setting the long-tail section again replaces the section set before:
/// the file is as if only the last section had been set, so a rerun with
/// the same section changes nothing and sections never pile up.
pub proof fn law_long_tail_rerun_replaces(existing: Seq<char>, first: Seq<char>, second: Seq<char>)
    ensures
        appended_spec(appended_spec(existing, first), second) == appended_spec(existing, second),
{
    law_long_tail_strip_recovers_base(existing, first);
}

// ─── Extra source roots ─────────────────────────────────────────────────────

/// The crate name the type paths of a sibling source root are rooted at:
/// the `[package] name` of its manifest (`None` when there is no readable
/// manifest), else the name of the crate's directory; hyphens become
/// underscores.
pub open spec fn extra_root_name_spec(manifest: Option<Seq<char>>, dir_name: Seq<char>) -> Seq<char> {
    let name = match manifest {
        Some(c) => match scan_lines(split(c, "\n"@)).1 {
            Some(p) => p,
            None => dir_name,
        },
        None => dir_name,
    };
    replace_char(name, '-', '_')
}

/// The crate name for the type paths of a sibling source root, from the
/// text of its manifest when one could be read and the name of the crate's
/// directory.
pub fn extra_root_crate_name(manifest: Option<&str>, dir_name: &str) -> (r: String)
    ensures
        r@ == extra_root_name_spec(
            match manifest {
                Some(c) => Some(c@),
                None => None,
            },
            dir_name@,
        ),
{
    let package = match manifest {
        Some(c) => package_name_from_manifest(c),
        None => None,
    };
    match package {
        Some(p) => replace_char_exec(p.as_str(), '-', '_'),
        None => replace_char_exec(dir_name, '-', '_'),
    }
}

// ─── Type pool ──────────────────────────────────────────────────────────────

/// `segs` begins with all of `prefix`.
pub open spec fn has_prefix(segs: Seq<Seq<char>>, prefix: Seq<Seq<char>>) -> bool {
    segs.len() >= prefix.len() && segs.subrange(0, prefix.len() as int) == prefix
}

/// Some prefix of `prefixes` begins `segs`.
pub open spec fn excluded_spec(segs: Seq<Seq<char>>, prefixes: Seq<Seq<Seq<char>>>) -> bool {
    exists|i: int| 0 <= i < prefixes.len() && has_prefix(segs, #[trigger] prefixes[i])
}

fn starts_with_segments(segs: &Vec<String>, prefix: &Vec<String>) -> (b: bool)
    ensures
        b == has_prefix(segs.deep_view(), prefix.deep_view()),
{
    if segs.len() < prefix.len() {
        return false;
    }
    let mut i: usize = 0;
    while i < prefix.len()
        invariant
            i <= prefix.len(),
            prefix.len() <= segs.len(),
            forall|j: int| 0 <= j < i ==> segs.deep_view()[j] == prefix.deep_view()[j],
        decreases prefix.len() - i,
    {
        if !str_eq(segs[i].as_str(), prefix[i].as_str()) {
            assert(segs.deep_view().subrange(0, prefix.len() as int)[i as int] != prefix.deep_view()[i as int]);
            return false;
        }
        i = i + 1;
    }
    assert(segs.deep_view().subrange(0, prefix.len() as int) =~= prefix.deep_view());
    true
}

/// Whether a pool entry's module path lies under one of the excluded
/// module prefixes.
pub fn is_excluded(segs: &Vec<String>, prefixes: &Vec<Vec<String>>) -> (b: bool)
    ensures
        b == excluded_spec(segs.deep_view(), prefixes.deep_view()),
{
    let mut i: usize = 0;
    while i < prefixes.len()
        invariant
            i <= prefixes.len(),
            forall|j: int| 0 <= j < i ==> !has_prefix(segs.deep_view(), #[trigger] prefixes.deep_view()[j]),
        decreases prefixes.len() - i,
    {
        if starts_with_segments(segs, &prefixes[i]) {
            assert(has_prefix(segs.deep_view(), prefixes.deep_view()[i as int]));
            return true;
        }
        i = i + 1;
    }
    false
}

// ─── Long-tail resolution ───────────────────────────────────────────────────

/// What resolving one long-tail name against the type pool gave.
#[derive(Debug, Clone, PartialEq, Eq)]
pub enum Resolution {
    /// One pool entry, by its path segments.
    Resolved(Vec<String>),
    /// No pool entry has the name.
    NotInPool,
    /// Several pool entries share the name; their rendered paths.
    Ambiguous(Vec<String>),
}

/// Why the long-tail roots could not be resolved: one warning per
/// offending name, and the error of the run.
#[derive(Debug, Clone, PartialEq, Eq)]
pub struct LongTailFailure {
    /// One warning line per offending name.
    pub warnings: Vec<String>,
    /// The error message.
    pub message: String,
}

/// The warning for a name the pool lacks.
pub open spec fn missing_warning(name: Seq<char>, src_dir: Seq<char>) -> Seq<char> {
    "ontogen-ts: long-tail type `"@ + name + "` not found in `"@ + src_dir + "`"@
}

/// The warning for a name several pool entries share.
pub open spec fn ambiguous_warning(name: Seq<char>, candidates: Seq<Seq<char>>) -> Seq<char> {
    "ontogen-ts: long-tail type `"@ + name + "` is ambiguous \u{2014} multiple pool entries share that name: "@
        + join(candidates, ", "@) + "; qualify it or rename one"@
}

/// The warnings for the names that resolved to no pool entry, in order.
pub open spec fn missing_warnings(names: Seq<Seq<char>>, rs: Seq<Resolution>, src_dir: Seq<char>) -> Seq<Seq<char>>
    decreases rs.len(),
{
    if rs.len() == 0 || names.len() == 0 {
        Seq::empty()
    } else {
        let w = missing_warnings(names.drop_last(), rs.drop_last(), src_dir);
        if rs.last() is NotInPool {
            w.push(missing_warning(names.last(), src_dir))
        } else {
            w
        }
    }
}

/// The warnings for the names that resolved ambiguously, in order.
pub open spec fn ambiguous_warnings(names: Seq<Seq<char>>, rs: Seq<Resolution>) -> Seq<Seq<char>>
    decreases rs.len(),
{
    if rs.len() == 0 || names.len() == 0 {
        Seq::empty()
    } else {
        let w = ambiguous_warnings(names.drop_last(), rs.drop_last());
        match rs.last() {
            Resolution::Ambiguous(c) => w.push(ambiguous_warning(names.last(), c.deep_view())),
            _ => w,
        }
    }
}

/// The pool entries of the names that resolved, in order.
pub open spec fn resolved_keys(rs: Seq<Resolution>) -> Seq<Seq<Seq<char>>>
    decreases rs.len(),
{
    if rs.len() == 0 {
        Seq::empty()
    } else {
        let k = resolved_keys(rs.drop_last());
        match rs.last() {
            Resolution::Resolved(p) => k.push(p.deep_view()),
            _ => k,
        }
    }
}

/// The error of a run with `n` names missing from the pool.
pub open spec fn missing_message(n: nat) -> Seq<char> {
    "ontogen-ts: "@ + decimal(n) + " long-tail type(s) not found in pool"@
}

/// The error of a run with `n` ambiguous names.
pub open spec fn ambiguous_message(n: nat) -> Seq<char> {
    "ontogen-ts: "@ + decimal(n) + " ambiguous long-tail type name(s)"@
}

/// Turn the resolution of each long-tail name into the emitter's roots.
/// Names missing from the pool fail the run first, each with a warning;
/// then ambiguous ones, each with a warning that lists the candidates;
/// otherwise the resolved entries are the roots, in order.
pub fn resolve_roots(names: &Vec<String>, resolutions: &Vec<Resolution>, src_dir: &str) -> (r: Result<
    Vec<Vec<String>>,
    LongTailFailure,
>)
    requires
        names@.len() == resolutions@.len(),
    ensures
        ({
            let missing = missing_warnings(names.deep_view(), resolutions@, src_dir@);
            let ambiguous = ambiguous_warnings(names.deep_view(), resolutions@);
            if missing.len() > 0 {
                r matches Err(f) && f.warnings.deep_view() == missing && f.message@ == missing_message(missing.len())
            } else if ambiguous.len() > 0 {
                r matches Err(f) && f.warnings.deep_view() == ambiguous && f.message@ == ambiguous_message(
                    ambiguous.len(),
                )
            } else {
                r matches Ok(v) && v.deep_view() == resolved_keys(resolutions@)
            }
        }),
{
    let mut roots: Vec<Vec<String>> = Vec::new();
    let mut missing: Vec<String> = Vec::new();
    let mut ambiguous: Vec<String> = Vec::new();
    let mut i: usize = 0;
    assert(names.deep_view().subrange(0, 0) =~= Seq::<Seq<char>>::empty());
    assert(resolutions@.subrange(0, 0) =~= Seq::<Resolution>::empty());
    while i < resolutions.len()
        invariant
            i <= resolutions.len(),
            names@.len() == resolutions@.len(),
            roots.deep_view() == resolved_keys(resolutions@.subrange(0, i as int)),
            missing.deep_view() == missing_warnings(
                names.deep_view().subrange(0, i as int),
                resolutions@.subrange(0, i as int),
                src_dir@,
            ),
            ambiguous.deep_view() == ambiguous_warnings(
                names.deep_view().subrange(0, i as int),
                resolutions@.subrange(0, i as int),
            ),
        decreases resolutions.len() - i,
    {
        let ghost ns = names.deep_view().subrange(0, i + 1);
        let ghost rs = resolutions@.subrange(0, i + 1);
        assert(ns.drop_last() =~= names.deep_view().subrange(0, i as int));
        assert(rs.drop_last() =~= resolutions@.subrange(0, i as int));
        assert(ns.last() == names@[i as int]@);
        assert(rs.last() == resolutions@[i as int]);
        let name = &names[i];
        match &resolutions[i] {
            Resolution::Resolved(key) => {
                let ghost before = roots.deep_view();
                roots.push(key.clone());
                assert(roots.deep_view() =~= before.push(key.deep_view()));
            },
            Resolution::NotInPool => {
                let mut w = String::from_str("ontogen-ts: long-tail type `");
                w.append(name.as_str());
                w.append("` not found in `");
                w.append(src_dir);
                w.append("`");
                let ghost before = missing.deep_view();
                missing.push(w);
                assert(missing.deep_view() =~= before.push(missing_warning(name@, src_dir@)));
            },
            Resolution::Ambiguous(candidates) => {
                let rendered = join_exec(candidates, ", ");
                let mut w = String::from_str("ontogen-ts: long-tail type `");
                w.append(name.as_str());
                w.append("` is ambiguous \u{2014} multiple pool entries share that name: ");
                w.append(rendered.as_str());
                w.append("; qualify it or rename one");
                let ghost before = ambiguous.deep_view();
                ambiguous.push(w);
                assert(ambiguous.deep_view() =~= before.push(ambiguous_warning(name@, candidates.deep_view())));
            },
        }
        i = i + 1;
    }
    assert(names.deep_view().subrange(0, i as int) =~= names.deep_view());
    assert(resolutions@.subrange(0, i as int) =~= resolutions@);
    if missing.len() > 0 {
        let mut message = String::from_str("ontogen-ts: ");
        let n = usize_to_decimal(missing.len());
        message.append(n.as_str());
        message.append(" long-tail type(s) not found in pool");
        return Err(LongTailFailure { warnings: missing, message });
    }
    if ambiguous.len() > 0 {
        let mut message = String::from_str("ontogen-ts: ");
        let n = usize_to_decimal(ambiguous.len());
        message.append(n.as_str());
        message.append(" ambiguous long-tail type name(s)");
        return Err(LongTailFailure { warnings: ambiguous, message });
    }
    Ok(roots)
}

// ─── The run ────────────────────────────────────────────────────────────────

/// The decisions of a client generation run, for the caller to carry out.
#[derive(Debug)]
pub struct ClientRun {
    /// The API modules, after the singleton overlay and command overrides.
    pub modules: Vec<ApiModule>,
    /// The skip records of the scan, each to be reported as a warning.
    pub skips: Vec<SkipRecord>,
    /// The bindings files the schema-known aliases go to, each once.
    pub bindings: Vec<String>,
    /// The schema-known bindings text.
    pub schema_ts: String,
    /// The long-tail roots to resolve and append.
    pub long_tail: Vec<String>,
}

/// What a successful run decides for its (overlaid) modules: with no
/// module, nothing is written; otherwise the schema-known aliases go to
/// every distinct bindings file and the long tail is computed.
pub open spec fn run_decided(r: ClientRun, config: Config) -> bool {
    if r.modules@.len() == 0 {
        r.bindings@.len() == 0 && r.long_tail@.len() == 0 && r.schema_ts@.len() == 0
    } else {
        &&& r.bindings.deep_view() == bindings_targets_spec(config.generators@)
        &&& r.schema_ts@ == bindings_text(config.schema_entities@)
        &&& r.long_tail.deep_view() == long_tail_spec(sorted_set(modules_refs(config, r.modules@)), config.schema_entities@)
    }
}

// ─── Entities shared by surfaces ────────────────────────────────────────────

/// The entity sources of a run: the primary schema's entities, then those
/// of each further surface that names a schema directory.
pub open spec fn entity_sources(primary: Seq<EntityDef>, surfaces: Seq<Vec<EntityDef>>) -> Seq<Seq<EntityDef>> {
    seq![primary] + Seq::new(surfaces.len(), |i: int| surfaces[i]@)
}

/// Some entity of `srcs` is named `n`.
pub open spec fn entity_named_in(srcs: Seq<Seq<EntityDef>>, n: Seq<char>) -> bool {
    exists|i: int, j: int| 0 <= i < srcs.len() && 0 <= j < srcs[i].len() && #[trigger] srcs[i][j].name@ == n
}

/// The first entity of `list` whose name an earlier source also defines.
pub open spec fn first_repeat(list: Seq<EntityDef>, earlier: Seq<Seq<EntityDef>>) -> Option<Seq<char>>
    decreases list.len(),
{
    if list.len() == 0 {
        None
    } else if entity_named_in(earlier, list[0].name@) {
        Some(list[0].name@)
    } else {
        first_repeat(list.subrange(1, list.len() as int), earlier)
    }
}

/// The first entity name, in source order, that two sources define.
pub open spec fn shared_entity(srcs: Seq<Seq<EntityDef>>) -> Option<Seq<char>>
    decreases srcs.len(),
{
    if srcs.len() == 0 {
        None
    } else {
        match shared_entity(srcs.drop_last()) {
            Some(n) => Some(n),
            None => first_repeat(srcs.last(), srcs.drop_last()),
        }
    }
}

/// The error of an entity that two API surfaces define.
pub open spec fn shared_entity_message(name: Seq<char>) -> Seq<char> {
    "entity `"@ + name + "` is defined by more than one API surface"@
}

fn source_at<'a>(primary: &'a Vec<EntityDef>, surfaces: &'a Vec<Vec<EntityDef>>, k: usize) -> (r: &'a Vec<EntityDef>)
    requires
        k <= surfaces@.len(),
    ensures
        r@ == entity_sources(primary@, surfaces@)[k as int],
{
    if k == 0 {
        primary
    } else {
        &surfaces[k - 1]
    }
}

fn named_in_first(primary: &Vec<EntityDef>, surfaces: &Vec<Vec<EntityDef>>, k: usize, n: &str) -> (b: bool)
    requires
        k <= surfaces@.len() + 1,
    ensures
        b == entity_named_in(entity_sources(primary@, surfaces@).subrange(0, k as int), n@),
{
    let ghost srcs = entity_sources(primary@, surfaces@);
    let ghost pre = srcs.subrange(0, k as int);
    let mut i: usize = 0;
    while i < k
        invariant
            i <= k <= surfaces@.len() + 1,
            srcs == entity_sources(primary@, surfaces@),
            srcs.len() == surfaces@.len() + 1,
            pre == srcs.subrange(0, k as int),
            forall|i2: int, j: int| 0 <= i2 < i && 0 <= j < pre[i2].len() ==> (#[trigger] pre[i2][j]).name@ != n@,
        decreases k - i,
    {
        let list = source_at(primary, surfaces, i);
        let mut j: usize = 0;
        while j < list.len()
            invariant
                i < k <= surfaces@.len() + 1,
                j <= list@.len(),
                srcs == entity_sources(primary@, surfaces@),
                srcs.len() == surfaces@.len() + 1,
                list@ == pre[i as int],
                pre == srcs.subrange(0, k as int),
                forall|i2: int, j2: int| 0 <= i2 < i && 0 <= j2 < pre[i2].len() ==> (#[trigger] pre[i2][j2]).name@ != n@,
                forall|j2: int| 0 <= j2 < j ==> (#[trigger] pre[i as int][j2]).name@ != n@,
            decreases list.len() - j,
        {
            if str_eq(list[j].name.as_str(), n) {
                assert(pre[i as int][j as int].name@ == n@);
                return true;
            }
            j = j + 1;
        }
        i = i + 1;
    }
    false
}

proof fn lemma_first_repeat_skip(list: Seq<EntityDef>, earlier: Seq<Seq<EntityDef>>, j: int)
    requires
        0 <= j <= list.len(),
        forall|j2: int| 0 <= j2 < j ==> !entity_named_in(earlier, (#[trigger] list[j2]).name@),
    ensures
        first_repeat(list, earlier) == first_repeat(list.subrange(j, list.len() as int), earlier),
    decreases j,
{
    if j > 0 {
        let t = list.subrange(1, list.len() as int);
        assert forall|j2: int| 0 <= j2 < j - 1 implies !entity_named_in(earlier, (#[trigger] t[j2]).name@) by {
            assert(t[j2] == list[j2 + 1]);
        }
        assert(!entity_named_in(earlier, list[0].name@));
        lemma_first_repeat_skip(t, earlier, j - 1);
        assert(t.subrange(j - 1, t.len() as int) =~= list.subrange(j, list.len() as int));
    } else {
        assert(list.subrange(0, list.len() as int) =~= list);
    }
}

/// Once a prefix of the sources shares a name, so do all of them, and it
/// is the same name.
proof fn lemma_shared_prefix(srcs: Seq<Seq<EntityDef>>, m: int)
    requires
        0 <= m <= srcs.len(),
        shared_entity(srcs.subrange(0, m)) is Some,
    ensures
        shared_entity(srcs) == shared_entity(srcs.subrange(0, m)),
    decreases srcs.len() - m,
{
    if m == srcs.len() {
        assert(srcs.subrange(0, m) =~= srcs);
    } else {
        let d = srcs.drop_last();
        assert(d.subrange(0, m) =~= srcs.subrange(0, m));
        lemma_shared_prefix(d, m);
    }
}

/// The first entity name, in source order, that two of the sources define:
/// the primary schema's entities and those of each further surface.
pub fn shared_entity_name(primary: &Vec<EntityDef>, surfaces: &Vec<Vec<EntityDef>>) -> (r: Option<String>)
    requires
        surfaces@.len() < usize::MAX,
    ensures
        opt_string_view(r) == shared_entity(entity_sources(primary@, surfaces@)),
{
    let ghost srcs = entity_sources(primary@, surfaces@);
    let n = surfaces.len() + 1;
    let mut k: usize = 0;
    assert(srcs.subrange(0, 0) =~= Seq::<Seq<EntityDef>>::empty());
    while k < n
        invariant
            k <= n == surfaces@.len() + 1,
            srcs == entity_sources(primary@, surfaces@),
            srcs.len() == n,
            shared_entity(srcs.subrange(0, k as int)) is None,
        decreases n - k,
    {
        let list = source_at(primary, surfaces, k);
        let ghost pre = srcs.subrange(0, k as int);
        let ghost now = srcs.subrange(0, k + 1);
        assert(now.drop_last() =~= pre);
        assert(now.last() == list@);
        let mut j: usize = 0;
        while j < list.len()
            invariant
                k < n == surfaces@.len() + 1,
                srcs == entity_sources(primary@, surfaces@),
                j <= list@.len(),
                list@ == srcs[k as int],
                pre == srcs.subrange(0, k as int),
                now.drop_last() == pre,
                now.last() == list@,
                now == srcs.subrange(0, k + 1),
                shared_entity(pre) is None,
                forall|j2: int| 0 <= j2 < j ==> !entity_named_in(pre, (#[trigger] list@[j2]).name@),
            decreases list.len() - j,
        {
            if named_in_first(primary, surfaces, k, list[j].name.as_str()) {
                let name = list[j].name.clone();
                proof {
                    lemma_first_repeat_skip(list@, pre, j as int);
                    let t = list@.subrange(j as int, list@.len() as int);
                    assert(t[0] == list@[j as int]);
                    assert(shared_entity(now) == Some(name@));
                    lemma_shared_prefix(srcs, k + 1);
                }
                return Some(name);
            }
            j = j + 1;
        }
        proof {
            lemma_first_repeat_skip(list@, pre, j as int);
            assert(list@.subrange(j as int, list@.len() as int) =~= Seq::<EntityDef>::empty());
        }
        k = k + 1;
    }
    assert(srcs.subrange(0, n as int) =~= srcs);
    None
}

/// An optional string as characters.
pub open spec fn opt_string_view(o: Option<String>) -> Option<Seq<char>> {
    match o {
        Some(s) => Some(s@),
        None => None,
    }
}

/// The error of a run whose API directory does not exist.
pub open spec fn missing_dir_message(api_dir: Seq<char>) -> Seq<char> {
    "API directory does not exist: "@ + api_dir
}

/// Decide a client generation run from the scanned API modules: fail when
/// the API directory does not exist, or when an entity name is defined by
/// more than one API surface (the primary schema's entities and, in
/// `surface_entities`, those of each further surface that names a schema
/// directory); otherwise apply the singleton overlay and the command
/// overrides, and, when any module is left, pick the bindings files,
/// render the schema-known aliases and compute the long tail.
pub fn generate(
    api_dir_exists: bool,
    scanned: ScanResult,
    config: &Config,
    surface_entities: &Vec<Vec<EntityDef>>,
) -> (r: Result<ClientRun, String>)
    requires
        surface_entities@.len() < usize::MAX,
    ensures
        r is Err <==> (!api_dir_exists || shared_entity(entity_sources(config.schema_entities@, surface_entities@))
            is Some),
        !api_dir_exists ==> (r matches Err(e) && e@ == missing_dir_message(config.api_dir@)),
        api_dir_exists ==> match shared_entity(entity_sources(config.schema_entities@, surface_entities@)) {
            Some(n) => r matches Err(e) && e@ == shared_entity_message(n),
            None => true,
        },
        r matches Ok(run) ==> {
            &&& overlays_applied(run.modules@, scanned.modules@, config.naming)
            &&& run.skips@ == scanned.skips@
            &&& run_decided(run, *config)
        },
{
    if !api_dir_exists {
        let mut e = String::from_str("API directory does not exist: ");
        e.append(config.api_dir.as_str());
        return Err(e);
    }
    match shared_entity_name(&config.schema_entities, surface_entities) {
        Some(n) => {
            let mut e = String::from_str("entity `");
            e.append(n.as_str());
            e.append("` is defined by more than one API surface");
            return Err(e);
        },
        None => {},
    }
    let ScanResult { modules, skips } = scanned;
    let mut modules = modules;
    apply_overlays(&mut modules, &config.naming);
    if modules.len() == 0 {
        return Ok(ClientRun { modules, skips, bindings: Vec::new(), schema_ts: String::new(), long_tail: Vec::new() });
    }
    let bindings = bindings_targets(&config.generators);
    let schema_ts = emit(&config.schema_entities);
    let long_tail = long_tail(&modules, config, &config.schema_entities);
    Ok(ClientRun { modules, skips, bindings, schema_ts, long_tail })
}

} // verus!
