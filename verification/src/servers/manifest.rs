//! The library crate name a `Cargo.toml` declares, read line by line without
//! a TOML parser: an explicit `[lib] name` wins, else the `[package] name`
//! with hyphens turned into underscores.

use vstd::prelude::*;
use crate::schema::parse::opt_v;
use crate::text::{
    chars_of, find, index_of, owned, replace_char, replace_char_exec, split, split_exec, str_eq, string_of_range,
    trim, trim_exec,
};

verus! {

/// The manifest table a line belongs to.
#[derive(PartialEq, Eq, Structural, Clone, Copy, Debug)]
pub enum ManifestSection {
    /// `[package]`.
    Package,
    /// `[lib]`.
    Lib,
    /// Before any table, or any other table.
    Other,
}

/// The table name of a trimmed line of the form `[name]`.
pub open spec fn header_of(t: Seq<char>) -> Option<Seq<char>> {
    if t.len() >= 2 && t[0] == '[' && t.last() == ']' {
        Some(t.subrange(1, t.len() - 1))
    } else {
        None
    }
}

/// The section a table name opens.
pub open spec fn section_of(name: Seq<char>) -> ManifestSection {
    if name == "package"@ {
        ManifestSection::Package
    } else if name == "lib"@ {
        ManifestSection::Lib
    } else {
        ManifestSection::Other
    }
}

/// `s` without its leading double quotes.
pub open spec fn unquote_start(s: Seq<char>) -> Seq<char>
    decreases s.len(),
{
    if s.len() > 0 && s[0] == '"' {
        unquote_start(s.subrange(1, s.len() as int))
    } else {
        s
    }
}

/// `s` without its trailing double quotes.
pub open spec fn unquote_end(s: Seq<char>) -> Seq<char>
    decreases s.len(),
{
    if s.len() > 0 && s.last() == '"' {
        unquote_end(s.drop_last())
    } else {
        s
    }
}

/// `s` without leading and trailing double quotes (`trim_matches('"')`).
pub open spec fn unquote(s: Seq<char>) -> Seq<char> {
    unquote_end(unquote_start(s))
}

/// The key and value of a trimmed `key = value` line, split at the first
/// `=`: the key trimmed, the value trimmed and unquoted.
pub open spec fn key_value(t: Seq<char>) -> Option<(Seq<char>, Seq<char>)> {
    match index_of(t, "="@) {
        Some(i) => Some((trim(t.subrange(0, i)), unquote(trim(t.subrange(i + 1, t.len() as int))))),
        None => None,
    }
}

/// The scan state after one more line: the current section, the package
/// name and the lib name seen so far (a later `name` replaces an earlier).
pub open spec fn scan_line(
    st: (ManifestSection, Option<Seq<char>>, Option<Seq<char>>),
    line: Seq<char>,
) -> (ManifestSection, Option<Seq<char>>, Option<Seq<char>>) {
    let t = trim(line);
    match header_of(t) {
        Some(h) => (section_of(h), st.1, st.2),
        None => match key_value(t) {
            Some(kv) => if st.0 == ManifestSection::Package && kv.0 == "name"@ {
                (st.0, Some(kv.1), st.2)
            } else if st.0 == ManifestSection::Lib && kv.0 == "name"@ {
                (st.0, st.1, Some(kv.1))
            } else {
                st
            },
            None => st,
        },
    }
}

/// The scan state after the given lines, from outside any table.
pub open spec fn scan_lines(lines: Seq<Seq<char>>) -> (ManifestSection, Option<Seq<char>>, Option<Seq<char>>)
    decreases lines.len(),
{
    if lines.len() == 0 {
        (ManifestSection::Other, None, None)
    } else {
        scan_line(scan_lines(lines.drop_last()), lines.last())
    }
}

/// The library crate name a manifest declares: the `[lib] name`, else the
/// `[package] name` with `-` turned into `_`.
pub open spec fn lib_crate_name(content: Seq<char>) -> Option<Seq<char>> {
    let st = scan_lines(split(content, "\n"@));
    match st.2 {
        Some(l) => Some(l),
        None => match st.1 {
            Some(p) => Some(replace_char(p, '-', '_')),
            None => None,
        },
    }
}

/// `s` without leading and trailing double quotes.
fn unquote_exec(s: &str) -> (r: String)
    ensures
        r@ == unquote(s@),
{
    let v = chars_of(s);
    let mut a: usize = 0;
    assert(v@.subrange(0, v@.len() as int) =~= s@);
    while a < v.len() && v[a] == '"'
        invariant
            a <= v.len(),
            v@ == s@,
            unquote_start(s@) == unquote_start(v@.subrange(a as int, v@.len() as int)),
        decreases v.len() - a,
    {
        let ghost t = v@.subrange(a as int, v@.len() as int);
        assert(t.subrange(1, t.len() as int) =~= v@.subrange(a + 1, v@.len() as int));
        a = a + 1;
    }
    let ghost rest = v@.subrange(a as int, v@.len() as int);
    assert(unquote_start(rest) == rest);
    let mut b: usize = v.len();
    assert(v@.subrange(a as int, b as int) =~= rest);
    while b > a && v[b - 1] == '"'
        invariant
            a <= b <= v.len(),
            unquote_end(rest) == unquote_end(v@.subrange(a as int, b as int)),
        decreases b - a,
    {
        let ghost t = v@.subrange(a as int, b as int);
        assert(t.drop_last() =~= v@.subrange(a as int, b - 1));
        b = b - 1;
    }
    assert(unquote_end(v@.subrange(a as int, b as int)) == v@.subrange(a as int, b as int));
    string_of_range(&v, a, b)
}

/// The section a table name opens.
fn section_exec(name: &str) -> (s: ManifestSection)
    ensures
        s == section_of(name@),
{
    proof {
        reveal_strlit("package");
        reveal_strlit("lib");
    }
    if str_eq(name, "package") {
        ManifestSection::Package
    } else if str_eq(name, "lib") {
        ManifestSection::Lib
    } else {
        ManifestSection::Other
    }
}

/// Scan the lines of a manifest: the section of the last line, and the
/// last `[package] name` and `[lib] name` values.
pub fn scan_manifest(content: &str) -> (r: (ManifestSection, Option<String>, Option<String>))
    ensures
        (r.0, opt_v(r.1), opt_v(r.2)) == scan_lines(split(content@, "\n"@)),
{
    proof {
        reveal_strlit("\n");
    }
    let lines = split_exec(content, "\n");
    let mut section = ManifestSection::Other;
    let mut package_name: Option<String> = None;
    let mut lib_name: Option<String> = None;
    let mut i: usize = 0;
    while i < lines.len()
        invariant
            i <= lines.len(),
            lines.deep_view() == split(content@, "\n"@),
            (section, opt_v(package_name), opt_v(lib_name)) == scan_lines(
                lines.deep_view().subrange(0, i as int),
            ),
        decreases lines.len() - i,
    {
        proof {
            reveal_strlit("=");
            reveal_strlit("name");
        }
        let ghost before = (section, opt_v(package_name), opt_v(lib_name));
        let ghost prefix = lines.deep_view().subrange(0, i + 1);
        assert(prefix.drop_last() =~= lines.deep_view().subrange(0, i as int));
        assert(prefix.last() == lines[i as int]@);
        let line = trim_exec(lines[i].as_str());
        let v = chars_of(line.as_str());
        let n = v.len();
        if n >= 2 && v[0] == '[' && v[n - 1] == ']' {
            let name = string_of_range(&v, 1, n - 1);
            section = section_exec(name.as_str());
        } else {
            match find(line.as_str(), "=") {
                Some(k) => {
                    let key = trim_exec(string_of_range(&v, 0, k).as_str());
                    let raw = trim_exec(string_of_range(&v, k + 1, n).as_str());
                    let val = unquote_exec(raw.as_str());
                    let is_name = str_eq(key.as_str(), "name");
                    if section == ManifestSection::Package && is_name {
                        package_name = Some(val);
                    } else if section == ManifestSection::Lib && is_name {
                        lib_name = Some(val);
                    }
                },
                None => {},
            }
        }
        assert((section, opt_v(package_name), opt_v(lib_name)) == scan_line(before, lines[i as int]@));
        i = i + 1;
    }
    assert(lines.deep_view().subrange(0, i as int) =~= lines.deep_view());
    (section, package_name, lib_name)
}

/// The library crate name declared by the manifest text `content`, found
/// at `manifest_path`: the `[lib] name` if one is set, else the
/// `[package] name` with hyphens turned into underscores; an error naming
/// the manifest when it declares neither.
pub fn sidecar_lib_crate_name(content: &str, manifest_path: &str) -> (r: Result<String, String>)
    ensures
        r is Ok <==> lib_crate_name(content@) is Some,
        r matches Ok(n) ==> lib_crate_name(content@) == Some(n@),
        r matches Err(e) ==> e@ == "could not determine lib crate name from "@ + manifest_path@,
{
    let (_, package_name, lib_name) = scan_manifest(content);
    match lib_name {
        Some(l) => Ok(l),
        None => match package_name {
            Some(p) => Ok(replace_char_exec(p.as_str(), '-', '_')),
            None => {
                let mut e = owned("could not determine lib crate name from ");
                e.append(manifest_path);
                proof {
                    reveal_strlit("could not determine lib crate name from ");
                }
                Err(e)
            },
        },
    }
}

/// The `[package] name` a manifest declares, as written.
pub fn package_name_from_manifest(content: &str) -> (r: Option<String>)
    ensures
        opt_v(r) == scan_lines(split(content@, "\n"@)).1,
{
    let (_, package_name, _) = scan_manifest(content);
    package_name
}

/// A `crate::`-rooted import path as seen from a sibling binary, which
/// names the library crate itself: the `crate::` prefix dropped, any other
/// path unchanged.
pub fn sidecar_types_module_path(types_import_path: &str) -> (r: String)
    ensures
        r@ == (if crate::text::starts_with(types_import_path@, "crate::"@) {
            types_import_path@.subrange(7, types_import_path@.len() as int)
        } else {
            types_import_path@
        }),
{
    proof {
        reveal_strlit("crate::");
    }
    let v = chars_of(types_import_path);
    if crate::text::str_starts_with(types_import_path, "crate::") {
        string_of_range(&v, 7, v.len())
    } else {
        owned(types_import_path)
    }
}

} // verus!
