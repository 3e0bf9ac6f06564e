//! Naming conventions for generated identifiers: snake_case entity names,
//! English plurals, and junction table and column names.

use vstd::prelude::*;

use crate::text::{
    ascii_lower, ascii_lower_exec, chars_of, ends_with, is_ascii_upper, owned, push_char, starts_with,
    str_ends_with, string_of_range,
};

verus! {

/// The snake_case form of one character: an ASCII upper-case letter becomes
/// its lower-case form, preceded by `_` unless it is the first character.
pub open spec fn snake_piece(c: char, first: bool) -> Seq<char> {
    if is_ascii_upper(c) {
        if first {
            seq![ascii_lower(c)]
        } else {
            seq!['_', ascii_lower(c)]
        }
    } else {
        seq![c]
    }
}

/// The snake_case form of `s`; `first` says whether `s` starts the name.
pub open spec fn snake_from(s: Seq<char>, first: bool) -> Seq<char>
    decreases s.len(),
{
    if s.len() == 0 {
        Seq::empty()
    } else {
        snake_piece(s[0], first) + snake_from(s.subrange(1, s.len() as int), false)
    }
}

/// The snake_case form of a PascalCase name.
pub open spec fn snake_spec(s: Seq<char>) -> Seq<char> {
    snake_from(s, true)
}

pub open spec fn is_vowel(c: char) -> bool {
    c == 'a' || c == 'e' || c == 'i' || c == 'o' || c == 'u'
}

/// The English plural of a lower-case word: a consonant-`y` ending becomes
/// `ies`, a sibilant ending (`s`, `x`, `z`, `ch`, `sh`) takes `es`, any other
/// word takes `s`.
pub open spec fn plural_spec(s: Seq<char>) -> Seq<char> {
    if s.len() >= 2 && s.last() == 'y' && !is_vowel(s[s.len() - 2]) {
        s.subrange(0, s.len() - 1) + "ies"@
    } else if ends_with(s, "s"@) || ends_with(s, "x"@) || ends_with(s, "z"@) || ends_with(s, "ch"@)
        || ends_with(s, "sh"@) {
        s + "es"@
    } else {
        s + "s"@
    }
}

/// The junction table of a `many_to_many` field: the override, else
/// `{source}_{field}`.
pub open spec fn junction_table_spec(source: Seq<char>, field: Seq<char>, over: Option<Seq<char>>) -> Seq<
    char,
> {
    match over {
        Some(j) => j,
        None => source + "_"@ + field,
    }
}

/// The junction column pointing at the source entity.
pub open spec fn junction_source_spec(source: Seq<char>) -> Seq<char> {
    source + "_id"@
}

/// The junction column pointing at the target entity; a self-referential
/// relation prefixes it with `related_` so the two columns differ.
pub open spec fn junction_target_spec(source: Seq<char>, target: Seq<char>, self_ref: bool) -> Seq<char> {
    if self_ref {
        "related_"@ + target + "_id"@
    } else {
        target + "_id"@
    }
}

/// Convert a PascalCase name to snake_case (`WorkSession` → `work_session`).
pub fn to_snake_case(s: &str) -> (r: String)
    ensures
        r@ == snake_spec(s@),
{
    let v = chars_of(s);
    let mut r = String::new();
    let mut i: usize = 0;
    assert(v@.subrange(0, v@.len() as int) =~= v@);
    while i < v.len()
        invariant
            i <= v.len(),
            v@ == s@,
            r@ + snake_from(v@.subrange(i as int, v@.len() as int), i == 0) == snake_spec(s@),
        decreases v.len() - i,
    {
        let ghost t = v@.subrange(i as int, v@.len() as int);
        assert(t.subrange(1, t.len() as int) =~= v@.subrange(i + 1, v@.len() as int));
        let c = v[i];
        if 'A' <= c && c <= 'Z' {
            if i > 0 {
                push_char(&mut r, '_');
            }
            push_char(&mut r, ascii_lower_exec(c));
            proof {
                if i > 0 {
                    assert(snake_piece(c, false) =~= seq!['_', ascii_lower(c)]);
                } else {
                    assert(snake_piece(c, true) =~= seq![ascii_lower(c)]);
                }
            }
        } else {
            push_char(&mut r, c);
        }
        i = i + 1;
    }
    assert(v@.subrange(i as int, v@.len() as int) =~= Seq::<char>::empty());
    r
}

/// Pluralize a snake_case word (`role` → `roles`, `entity` → `entities`).
pub fn pluralize(s: &str) -> (r: String)
    ensures
        r@ == plural_spec(s@),
{
    let v = chars_of(s);
    let n = v.len();
    if n >= 2 && v[n - 1] == 'y' {
        let c = v[n - 2];
        if !(c == 'a' || c == 'e' || c == 'i' || c == 'o' || c == 'u') {
            let mut r = string_of_range(&v, 0, n - 1);
            r.append("ies");
            return r;
        }
    }
    let mut r = owned(s);
    if str_ends_with(s, "s") || str_ends_with(s, "x") || str_ends_with(s, "z") || str_ends_with(s, "ch")
        || str_ends_with(s, "sh") {
        r.append("es");
    } else {
        r.append("s");
    }
    r
}

/// The junction table name of a `many_to_many` field.
pub fn junction_table_name(source_snake: &str, field: &str, junction: Option<&str>) -> (r: String)
    ensures
        r@ == junction_table_spec(
            source_snake@,
            field@,
            match junction {
                Some(j) => Some(j@),
                None => None,
            },
        ),
{
    match junction {
        Some(j) => owned(j),
        None => {
            let mut r = owned(source_snake);
            r.append("_");
            r.append(field);
            r
        },
    }
}

/// The junction column holding the source entity's id.
pub fn junction_source_col(source_snake: &str) -> (r: String)
    ensures
        r@ == junction_source_spec(source_snake@),
{
    let mut r = owned(source_snake);
    r.append("_id");
    r
}

/// The junction column holding the target entity's id.
pub fn junction_target_col(source_snake: &str, target_snake: &str, is_self_ref: bool) -> (r: String)
    ensures
        r@ == junction_target_spec(source_snake@, target_snake@, is_self_ref),
{
    let mut r = if is_self_ref {
        String::from_str("related_")
    } else {
        String::new()
    };
    r.append(target_snake);
    r.append("_id");
    proof {
        if !is_self_ref {
            assert(r@ =~= target_snake@ + "_id"@);
        }
    }
    r
}

} // verus!
