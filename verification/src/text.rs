//! Character-level string toolkit shared by every generator.
//!
//! Every operation here is stated over `Seq<char>`, the view of `str` and
//! `String`: prefixes and suffixes, whitespace trimming, left-to-right
//! non-overlapping replacement, first-occurrence search, splitting, and case
//! mapping.

use vstd::prelude::*;

verus! {

// ─── Specifications ─────────────────────────────────────────────────────────

/// `p` is a prefix of `s`.
pub open spec fn starts_with(s: Seq<char>, p: Seq<char>) -> bool {
    p.len() <= s.len() && s.subrange(0, p.len() as int) == p
}

/// `p` is a suffix of `s`.
pub open spec fn ends_with(s: Seq<char>, p: Seq<char>) -> bool {
    p.len() <= s.len() && s.subrange(s.len() - p.len(), s.len() as int) == p
}

/// `p` occurs in `s` at position `i`.
pub open spec fn occurs_at(s: Seq<char>, p: Seq<char>, i: int) -> bool {
    0 <= i && i + p.len() <= s.len() && s.subrange(i, i + p.len()) == p
}

/// `p` occurs somewhere in `s`.
pub open spec fn contains(s: Seq<char>, p: Seq<char>) -> bool {
    exists|i: int| #[trigger] occurs_at(s, p, i)
}

/// The position of the first occurrence of `p` in `s`, if any.
pub open spec fn index_of(s: Seq<char>, p: Seq<char>) -> Option<int>
    decreases s.len(),
{
    if s.len() < p.len() {
        None
    } else if s.subrange(0, p.len() as int) == p {
        Some(0)
    } else if s.len() == 0 {
        None
    } else {
        match index_of(s.subrange(1, s.len() as int), p) {
            Some(i) => Some(i + 1),
            None => None,
        }
    }
}

/// Unicode `White_Space`, the property `char::is_whitespace` and `str::trim`
/// use.
pub open spec fn is_ws(c: char) -> bool {
    ||| c == '\t'
    ||| c == '\n'
    ||| c == '\u{0B}'
    ||| c == '\u{0C}'
    ||| c == '\r'
    ||| c == ' '
    ||| c == '\u{85}'
    ||| c == '\u{A0}'
    ||| c == '\u{1680}'
    ||| ('\u{2000}' <= c && c <= '\u{200A}')
    ||| c == '\u{2028}'
    ||| c == '\u{2029}'
    ||| c == '\u{202F}'
    ||| c == '\u{205F}'
    ||| c == '\u{3000}'
}

/// `s` without its leading whitespace.
pub open spec fn trim_start(s: Seq<char>) -> Seq<char>
    decreases s.len(),
{
    if s.len() > 0 && is_ws(s[0]) {
        trim_start(s.subrange(1, s.len() as int))
    } else {
        s
    }
}

/// `s` without its trailing whitespace.
pub open spec fn trim_end(s: Seq<char>) -> Seq<char>
    decreases s.len(),
{
    if s.len() > 0 && is_ws(s.last()) {
        trim_end(s.drop_last())
    } else {
        s
    }
}

/// `s` without leading and trailing whitespace.
pub open spec fn trim(s: Seq<char>) -> Seq<char> {
    trim_end(trim_start(s))
}

/// Every non-overlapping occurrence of `p` in `s`, found left to right,
/// replaced by `r` (the meaning of `str::replace` for a non-empty pattern).
pub open spec fn replace(s: Seq<char>, p: Seq<char>, r: Seq<char>) -> Seq<char>
    decreases s.len(),
{
    if p.len() == 0 || s.len() == 0 {
        s
    } else if starts_with(s, p) {
        r + replace(s.subrange(p.len() as int, s.len() as int), p, r)
    } else {
        seq![s[0]] + replace(s.subrange(1, s.len() as int), p, r)
    }
}

/// Every `a` in `s` replaced by `b`.
pub open spec fn replace_char(s: Seq<char>, a: char, b: char) -> Seq<char> {
    s.map_values(|c: char| if c == a { b } else { c })
}

/// The pieces of `s` between the occurrences of `sep` (the meaning of
/// `str::split` for a non-empty separator).
pub open spec fn split(s: Seq<char>, sep: Seq<char>) -> Seq<Seq<char>>
    decreases s.len(),
{
    if sep.len() == 0 {
        seq![s]
    } else {
        match index_of(s, sep) {
            None => seq![s],
            Some(i) => {
                proof {
                    lemma_index_of_bounds(s, sep);
                }
                seq![s.subrange(0, i)] + split(s.subrange(i + sep.len(), s.len() as int), sep)
            },
        }
    }
}

/// `s` with every trailing copy of `p` removed (`str::trim_end_matches`).
pub open spec fn trim_end_matches(s: Seq<char>, p: Seq<char>) -> Seq<char>
    decreases s.len(),
{
    if p.len() > 0 && ends_with(s, p) {
        trim_end_matches(s.subrange(0, s.len() - p.len()), p)
    } else {
        s
    }
}

/// The concatenation of the strings of `parts`.
pub open spec fn concat(parts: Seq<Seq<char>>) -> Seq<char>
    decreases parts.len(),
{
    if parts.len() == 0 {
        Seq::empty()
    } else {
        concat(parts.drop_last()) + parts.last()
    }
}

/// The strings of `parts` joined by `sep`.
pub open spec fn join(parts: Seq<Seq<char>>, sep: Seq<char>) -> Seq<char>
    decreases parts.len(),
{
    if parts.len() == 0 {
        Seq::empty()
    } else if parts.len() == 1 {
        parts[0]
    } else {
        join(parts.drop_last(), sep) + sep + parts.last()
    }
}

/// The concatenation of `f` applied to each element of `s`.
pub open spec fn flat_map<A>(s: Seq<A>, f: spec_fn(A) -> Seq<char>) -> Seq<char>
    decreases s.len(),
{
    if s.len() == 0 {
        Seq::empty()
    } else {
        flat_map(s.drop_last(), f) + f(s.last())
    }
}

pub open spec fn is_ascii_upper(c: char) -> bool {
    'A' <= c && c <= 'Z'
}

pub open spec fn is_ascii_lower(c: char) -> bool {
    'a' <= c && c <= 'z'
}

pub open spec fn is_ascii_digit(c: char) -> bool {
    '0' <= c && c <= '9'
}

pub open spec fn is_ascii_alpha(c: char) -> bool {
    is_ascii_upper(c) || is_ascii_lower(c)
}

pub open spec fn is_ascii_alnum(c: char) -> bool {
    is_ascii_alpha(c) || is_ascii_digit(c)
}

/// An ASCII character.
pub open spec fn is_ascii_char(c: char) -> bool {
    (c as u32) < 128
}

/// Every character of `s` is ASCII.
pub open spec fn is_ascii_str(s: Seq<char>) -> bool {
    forall|i: int| 0 <= i < s.len() ==> is_ascii_char(#[trigger] s[i])
}

/// `char::to_ascii_uppercase`.
pub open spec fn ascii_upper(c: char) -> char {
    if is_ascii_lower(c) {
        ((c as u32) - 32) as char
    } else {
        c
    }
}

/// `char::to_ascii_lowercase`.
pub open spec fn ascii_lower(c: char) -> char {
    if is_ascii_upper(c) {
        ((c as u32) + 32) as char
    } else {
        c
    }
}

/// The Unicode uppercase mapping of one character, as `char::to_uppercase`
/// yields it (one to three characters).
pub uninterp spec fn char_upper(c: char) -> Seq<char>;

/// The uppercase mapping of one character: for an ASCII character its
/// ASCII uppercase (`a`..`z` become `A`..`Z`, every other ASCII character
/// stays), else its Unicode uppercase mapping [`char_upper`].
pub open spec fn upper_char(c: char) -> Seq<char> {
    if is_ascii_char(c) {
        seq![ascii_upper(c)]
    } else {
        char_upper(c)
    }
}

/// The Unicode uppercase of a string: each character mapped by
/// [`upper_char`], as `str::to_uppercase` does.
pub open spec fn str_upper(s: Seq<char>) -> Seq<char> {
    flat_map(s, |c: char| upper_char(c))
}

// ─── Lemmas ─────────────────────────────────────────────────────────────────

pub proof fn lemma_flat_map_take<A>(s: Seq<A>, f: spec_fn(A) -> Seq<char>, i: int)
    requires
        0 <= i < s.len(),
    ensures
        flat_map(s.subrange(0, i + 1), f) == flat_map(s.subrange(0, i), f) + f(s[i]),
{
    assert(s.subrange(0, i + 1).drop_last() =~= s.subrange(0, i));
}

pub proof fn lemma_flat_map_all<A>(s: Seq<A>, f: spec_fn(A) -> Seq<char>)
    ensures
        flat_map(s.subrange(0, s.len() as int), f) == flat_map(s, f),
{
    assert(s.subrange(0, s.len() as int) =~= s);
}

pub proof fn lemma_concat_take(s: Seq<Seq<char>>, i: int)
    requires
        0 <= i < s.len(),
    ensures
        concat(s.subrange(0, i + 1)) == concat(s.subrange(0, i)) + s[i],
{
    assert(s.subrange(0, i + 1).drop_last() =~= s.subrange(0, i));
}

pub proof fn lemma_trim_start_skip(s: Seq<char>, k: int)
    requires
        0 <= k <= s.len(),
        forall|j: int| 0 <= j < k ==> is_ws(#[trigger] s[j]),
    ensures
        trim_start(s) == trim_start(s.subrange(k, s.len() as int)),
    decreases k,
{
    if k > 0 {
        let t = s.subrange(1, s.len() as int);
        assert forall|j: int| 0 <= j < k - 1 implies is_ws(#[trigger] t[j]) by {
            assert(t[j] == s[j + 1]);
        }
        lemma_trim_start_skip(t, k - 1);
        assert(t.subrange(k - 1, t.len() as int) =~= s.subrange(k, s.len() as int));
    } else {
        assert(s.subrange(0, s.len() as int) =~= s);
    }
}

pub proof fn lemma_trim_end_take(s: Seq<char>, k: int)
    requires
        0 <= k <= s.len(),
        forall|j: int| k <= j < s.len() ==> is_ws(#[trigger] s[j]),
    ensures
        trim_end(s) == trim_end(s.subrange(0, k)),
    decreases s.len() - k,
{
    if k < s.len() {
        let t = s.drop_last();
        assert forall|j: int| k <= j < t.len() implies is_ws(#[trigger] t[j]) by {
            assert(t[j] == s[j]);
        }
        lemma_trim_end_take(t, k);
        assert(t.subrange(0, k) =~= s.subrange(0, k));
    } else {
        assert(s.subrange(0, k) =~= s);
    }
}

pub proof fn lemma_trim_len(s: Seq<char>)
    ensures
        trim_start(s).len() <= s.len(),
        trim_end(s).len() <= s.len(),
        trim(s).len() <= s.len(),
    decreases s.len(),
{
    if s.len() > 0 {
        lemma_trim_len(s.subrange(1, s.len() as int));
        lemma_trim_len(s.drop_last());
    }
    lemma_trim_len_end(trim_start(s));
}

pub proof fn lemma_trim_len_end(s: Seq<char>)
    ensures
        trim_end(s).len() <= s.len(),
    decreases s.len(),
{
    if s.len() > 0 {
        lemma_trim_len_end(s.drop_last());
    }
}

pub proof fn lemma_trim_start_props(s: Seq<char>)
    ensures
        trim_start(s).len() == 0 || !is_ws(trim_start(s)[0]),
        trim_start(s).len() <= s.len(),
        trim_start(s) == s.subrange(s.len() - trim_start(s).len(), s.len() as int),
    decreases s.len(),
{
    if s.len() > 0 && is_ws(s[0]) {
        let t = s.subrange(1, s.len() as int);
        lemma_trim_start_props(t);
        assert(t.subrange(t.len() - trim_start(t).len(), t.len() as int) =~= s.subrange(
            s.len() - trim_start(t).len(),
            s.len() as int,
        ));
    } else {
        assert(s.subrange(0, s.len() as int) =~= s);
    }
}

pub proof fn lemma_trim_end_props(s: Seq<char>)
    ensures
        trim_end(s).len() == 0 || !is_ws(trim_end(s).last()),
        trim_end(s).len() <= s.len(),
        trim_end(s) == s.subrange(0, trim_end(s).len() as int),
    decreases s.len(),
{
    if s.len() > 0 && is_ws(s.last()) {
        let t = s.drop_last();
        lemma_trim_end_props(t);
        assert(t.subrange(0, trim_end(t).len() as int) =~= s.subrange(0, trim_end(t).len() as int));
    } else {
        assert(s.subrange(0, s.len() as int) =~= s);
    }
}

/// Trimming twice is trimming once.
pub proof fn lemma_trim_idem(s: Seq<char>)
    ensures
        trim(trim(s)) == trim(s),
{
    let u = trim_start(s);
    let t = trim_end(u);
    lemma_trim_start_props(s);
    lemma_trim_end_props(u);
    if t.len() > 0 {
        assert(t[0] == u[0]);
        assert(trim_start(t) == t);
        lemma_trim_end_props(t);
        assert(trim_end(t) == t);
    } else {
        assert(trim_start(t) == t);
        assert(trim_end(t) == t);
    }
}

/// `split` yields at least one piece.
pub proof fn lemma_split_nonempty(s: Seq<char>, sep: Seq<char>)
    ensures
        split(s, sep).len() >= 1,
    decreases s.len(),
{
    if sep.len() > 0 {
        if let Some(i) = index_of(s, sep) {
            lemma_index_of_bounds(s, sep);
            lemma_split_nonempty(s.subrange(i + sep.len(), s.len() as int), sep);
        }
    }
}

/// Replacing every `a` by some other character leaves no `a`.
pub proof fn lemma_replace_char_removes(s: Seq<char>, a: char, b: char)
    requires
        a != b,
    ensures
        !replace_char(s, a, b).contains(a),
{
    let r = replace_char(s, a, b);
    assert forall|i: int| 0 <= i < r.len() implies r[i] != a by {}
}

// ─── Executable operations ──────────────────────────────────────────────────

/// `String::push`: appends one character.
#[verifier::external_body]
pub(crate) fn push_char(s: &mut String, c: char)
    ensures
        final(s)@ == old(s)@.push(c),
{
    s.push(c);
}

/// `char::to_uppercase`, collected into a `String`: the character's
/// Unicode uppercase mapping, which for an ASCII character is its ASCII
/// uppercase (`a`..`z` become `A`..`Z`, every other ASCII character has no
/// mapping and stays).
#[verifier::external_body]
pub(crate) fn upper_of_char(c: char) -> (r: String)
    ensures
        r@ == char_upper(c),
        is_ascii_char(c) ==> r@ == seq![ascii_upper(c)],
{
    c.to_uppercase().collect()
}

/// The characters of `s`, in order.
pub fn chars_of(s: &str) -> (v: Vec<char>)
    ensures
        v@ == s@,
{
    let mut v: Vec<char> = Vec::new();
    let n = s.unicode_len();
    let mut i: usize = 0;
    while i < n
        invariant
            n == s@.len(),
            i <= n,
            v@ == s@.subrange(0, i as int),
        decreases n - i,
    {
        let c = s.get_char(i);
        v.push(c);
        i = i + 1;
    }
    v
}

/// A `String` holding exactly `v[from..to]`.
pub fn string_of_range(v: &Vec<char>, from: usize, to: usize) -> (s: String)
    requires
        from <= to <= v.len(),
    ensures
        s@ == v@.subrange(from as int, to as int),
{
    let mut s = String::new();
    let mut i: usize = from;
    while i < to
        invariant
            from <= i <= to <= v.len(),
            s@ == v@.subrange(from as int, i as int),
        decreases to - i,
    {
        push_char(&mut s, v[i]);
        i = i + 1;
    }
    s
}

/// A copy of `s` as a `String`.
pub fn owned(s: &str) -> (r: String)
    ensures
        r@ == s@,
{
    String::from_str(s)
}

/// Appends `t` to `s`.
pub fn append_seq(s: &mut String, t: &Vec<char>)
    ensures
        final(s)@ == old(s)@ + t@,
{
    let mut i: usize = 0;
    while i < t.len()
        invariant
            i <= t.len(),
            s@ == old(s)@ + t@.subrange(0, i as int),
        decreases t.len() - i,
    {
        push_char(s, t[i]);
        i = i + 1;
        assert(t@.subrange(0, i as int) =~= t@.subrange(0, i - 1).push(t@[i - 1]));
    }
    assert(t@.subrange(0, t@.len() as int) =~= t@);
}

/// Whether `p` occurs in `v` at position `i`.
pub fn occurs_at_exec(v: &Vec<char>, p: &Vec<char>, i: usize) -> (b: bool)
    ensures
        b == occurs_at(v@, p@, i as int),
{
    if i > v.len() || p.len() > v.len() - i {
        return false;
    }
    let mut k: usize = 0;
    while k < p.len()
        invariant
            i + p.len() <= v.len(),
            k <= p.len(),
            forall|j: int| 0 <= j < k ==> v@[i + j] == p@[j],
        decreases p.len() - k,
    {
        if v[i + k] != p[k] {
            assert(v@.subrange(i as int, i + p@.len())[k as int] != p@[k as int]);
            return false;
        }
        k = k + 1;
    }
    assert(v@.subrange(i as int, i + p@.len()) =~= p@);
    true
}

/// Whether `v` begins with `p`.
pub fn starts_with_exec(v: &Vec<char>, p: &Vec<char>) -> (b: bool)
    ensures
        b == starts_with(v@, p@),
{
    occurs_at_exec(v, p, 0)
}

/// Whether `v` ends with `p`.
pub fn ends_with_exec(v: &Vec<char>, p: &Vec<char>) -> (b: bool)
    ensures
        b == ends_with(v@, p@),
{
    if p.len() > v.len() {
        return false;
    }
    occurs_at_exec(v, p, v.len() - p.len())
}

/// Whether `s` begins with `p`.
pub fn str_starts_with(s: &str, p: &str) -> (b: bool)
    ensures
        b == starts_with(s@, p@),
{
    starts_with_exec(&chars_of(s), &chars_of(p))
}

/// Whether `s` ends with `p`.
pub fn str_ends_with(s: &str, p: &str) -> (b: bool)
    ensures
        b == ends_with(s@, p@),
{
    ends_with_exec(&chars_of(s), &chars_of(p))
}

/// Whether two strings hold the same characters.
pub fn str_eq(a: &str, b: &str) -> (r: bool)
    ensures
        r == (a@ == b@),
{
    let va = chars_of(a);
    let vb = chars_of(b);
    if va.len() != vb.len() {
        return false;
    }
    let r = occurs_at_exec(&va, &vb, 0);
    assert(va@.subrange(0, vb@.len() as int) =~= va@);
    r
}

/// The first position of `p` in `v` at or after `from`, if any.
pub fn find_from(v: &Vec<char>, p: &Vec<char>, from: usize) -> (r: Option<usize>)
    requires
        from <= v.len(),
    ensures
        match r {
            Some(i) => index_of(v@.subrange(from as int, v@.len() as int), p@) == Some(i - from) && from <= i
                && i + p@.len() <= v@.len(),
            None => index_of(v@.subrange(from as int, v@.len() as int), p@) is None,
        },
    decreases v.len() - from,
{
    let ghost s = v@.subrange(from as int, v@.len() as int);
    if v.len() - from < p.len() {
        return None;
    }
    if occurs_at_exec(v, p, from) {
        assert(s.subrange(0, p@.len() as int) =~= v@.subrange(from as int, from + p@.len()));
        return Some(from);
    }
    assert(s.subrange(0, p@.len() as int) =~= v@.subrange(from as int, from + p@.len()));
    if from == v.len() {
        return None;
    }
    let r = find_from(v, p, from + 1);
    assert(s.subrange(1, s.len() as int) =~= v@.subrange(from + 1, v@.len() as int));
    r
}

pub proof fn lemma_index_of_bounds(s: Seq<char>, p: Seq<char>)
    ensures
        index_of(s, p) matches Some(i) ==> 0 <= i && i + p.len() <= s.len() && s.subrange(i, i + p.len()) == p,
    decreases s.len(),
{
    if s.len() < p.len() {
    } else if s.subrange(0, p.len() as int) == p {
    } else if s.len() == 0 {
    } else {
        let t = s.subrange(1, s.len() as int);
        lemma_index_of_bounds(t, p);
        if let Some(i) = index_of(t, p) {
            assert(t.subrange(i, i + p.len()) =~= s.subrange(i + 1, i + 1 + p.len()));
        }
    }
}

/// `index_of` finds the first occurrence, and none is missed.
pub proof fn lemma_index_of_first(s: Seq<char>, p: Seq<char>)
    ensures
        match index_of(s, p) {
            Some(i) => occurs_at(s, p, i) && forall|j: int| 0 <= j < i ==> !occurs_at(s, p, j),
            None => forall|j: int| !occurs_at(s, p, j),
        },
    decreases s.len(),
{
    if s.len() < p.len() {
    } else if s.subrange(0, p.len() as int) == p {
    } else if s.len() == 0 {
    } else {
        let t = s.subrange(1, s.len() as int);
        lemma_index_of_first(t, p);
        assert forall|j: int| 0 <= j implies occurs_at(s, p, j + 1) == occurs_at(t, p, j) by {
            if j + 1 + p.len() <= s.len() {
                assert(s.subrange(j + 1, j + 1 + p.len()) =~= t.subrange(j, j + p.len()));
            }
        }
        assert(!occurs_at(s, p, 0));
        match index_of(t, p) {
            Some(i) => {
                assert(occurs_at(t, p, i));
                assert forall|j: int| 0 <= j < i + 1 implies !occurs_at(s, p, j) by {
                    if j > 0 {
                        assert(occurs_at(s, p, (j - 1) + 1) == occurs_at(t, p, j - 1));
                    }
                }
            },
            None => {
                assert forall|j: int| !occurs_at(s, p, j) by {
                    if j > 0 {
                        assert(occurs_at(s, p, (j - 1) + 1) == occurs_at(t, p, j - 1));
                    }
                }
            },
        }
    }
}

/// The position of the first occurrence of `p` in `s`, if any.
pub fn find(s: &str, p: &str) -> (r: Option<usize>)
    ensures
        match r {
            Some(i) => index_of(s@, p@) == Some(i as int) && i + p@.len() <= s@.len(),
            None => index_of(s@, p@) is None,
        },
{
    let v = chars_of(s);
    let pv = chars_of(p);
    assert(v@.subrange(0, v@.len() as int) =~= v@);
    find_from(&v, &pv, 0)
}

/// Whether `p` occurs in `s`.
pub fn str_contains(s: &str, p: &str) -> (b: bool)
    ensures
        b == contains(s@, p@),
{
    let v = chars_of(s);
    let pv = chars_of(p);
    let mut i: usize = 0;
    if pv.len() > v.len() {
        assert forall|j: int| !occurs_at(v@, pv@, j) by {}
        return false;
    }
    let last = v.len() - pv.len();
    loop
        invariant
            pv.len() <= v.len(),
            v@ == s@,
            pv@ == p@,
            last == v.len() - pv.len(),
            i <= last,
            forall|j: int| 0 <= j < i ==> !occurs_at(v@, pv@, j),
        ensures
            forall|j: int| 0 <= j <= last ==> !occurs_at(v@, pv@, j),
        decreases last - i,
    {
        if occurs_at_exec(&v, &pv, i) {
            assert(occurs_at(s@, p@, i as int));
            return true;
        }
        if i == last {
            break;
        }
        i = i + 1;
    }
    assert forall|j: int| !occurs_at(v@, pv@, j) by {
        if 0 <= j <= last {
        }
    }
    false
}

/// Unicode `White_Space` membership.
pub fn is_ws_exec(c: char) -> (b: bool)
    ensures
        b == is_ws(c),
{
    c == '\t' || c == '\n' || c == '\u{0B}' || c == '\u{0C}' || c == '\r' || c == ' ' || c == '\u{85}'
        || c == '\u{A0}' || c == '\u{1680}' || ('\u{2000}' <= c && c <= '\u{200A}') || c == '\u{2028}'
        || c == '\u{2029}' || c == '\u{202F}' || c == '\u{205F}' || c == '\u{3000}'
}

/// Bounds `[a, b)` of `trim(v)` inside `v`.
pub fn trim_bounds(v: &Vec<char>) -> (r: (usize, usize))
    ensures
        r.0 <= r.1 <= v.len(),
        trim(v@) == v@.subrange(r.0 as int, r.1 as int),
        trim_start(v@) == v@.subrange(r.0 as int, v@.len() as int),
{
    let mut a: usize = 0;
    while a < v.len() && is_ws_exec(v[a])
        invariant
            a <= v.len(),
            forall|j: int| 0 <= j < a ==> is_ws(#[trigger] v@[j]),
        decreases v.len() - a,
    {
        a = a + 1;
    }
    let ghost rest = v@.subrange(a as int, v@.len() as int);
    proof {
        lemma_trim_start_skip(v@, a as int);
        if rest.len() > 0 {
            assert(rest[0] == v@[a as int]);
        }
    }
    assert(trim_start(rest) == rest);
    let mut b: usize = v.len();
    while b > a && is_ws_exec(v[b - 1])
        invariant
            a <= b <= v.len(),
            forall|j: int| b <= j < v.len() ==> is_ws(#[trigger] v@[j]),
        decreases b,
    {
        b = b - 1;
    }
    proof {
        let t = rest;
        let k = b - a;
        assert forall|j: int| k <= j < t.len() implies is_ws(#[trigger] t[j]) by {
            assert(t[j] == v@[j + a]);
        }
        lemma_trim_end_take(t, k);
        let u = t.subrange(0, k);
        if u.len() > 0 {
            assert(u.last() == v@[b - 1]);
        }
        assert(trim_end(u) == u);
        assert(u =~= v@.subrange(a as int, b as int));
    }
    (a, b)
}

/// `s` without trailing whitespace (`str::trim_end`).
pub fn trim_end_exec(s: &str) -> (r: String)
    ensures
        r@ == trim_end(s@),
{
    let v = chars_of(s);
    let mut b: usize = v.len();
    assert(v@.subrange(0, b as int) =~= s@);
    while b > 0 && is_ws_exec(v[b - 1])
        invariant
            b <= v.len(),
            v@ == s@,
            trim_end(s@) == trim_end(v@.subrange(0, b as int)),
        decreases b,
    {
        let ghost t = v@.subrange(0, b as int);
        assert(t.drop_last() =~= v@.subrange(0, b - 1));
        b = b - 1;
    }
    assert(trim_end(v@.subrange(0, b as int)) == v@.subrange(0, b as int));
    string_of_range(&v, 0, b)
}

/// `s` without leading and trailing whitespace (`str::trim`).
pub fn trim_exec(s: &str) -> (r: String)
    ensures
        r@ == trim(s@),
{
    let v = chars_of(s);
    let (a, b) = trim_bounds(&v);
    string_of_range(&v, a, b)
}

/// `s` with every non-overlapping occurrence of `p` replaced by `r`.
pub fn replace_exec(s: &str, p: &str, r: &str) -> (out: String)
    requires
        p@.len() > 0,
    ensures
        out@ == replace(s@, p@, r@),
{
    let v = chars_of(s);
    let pv = chars_of(p);
    let rv = chars_of(r);
    let mut out = String::new();
    let mut i: usize = 0;
    assert(v@.subrange(0, v@.len() as int) =~= v@);
    while i < v.len()
        invariant
            i <= v.len(),
            pv@.len() > 0,
            v@ == s@,
            pv@ == p@,
            rv@ == r@,
            out@ + replace(v@.subrange(i as int, v@.len() as int), p@, r@) == replace(s@, p@, r@),
        decreases v.len() - i,
    {
        let ghost t = v@.subrange(i as int, v@.len() as int);
        let m = occurs_at_exec(&v, &pv, i);
        assert(m == starts_with(t, p@)) by {
            if i + pv@.len() <= v@.len() {
                assert(t.subrange(0, p@.len() as int) =~= v@.subrange(i as int, i + p@.len()));
            }
        }
        if m {
            append_seq(&mut out, &rv);
            assert(t.subrange(p@.len() as int, t.len() as int) =~= v@.subrange(i + pv@.len(), v@.len() as int));
            i = i + pv.len();
        } else {
            push_char(&mut out, v[i]);
            assert(t.subrange(1, t.len() as int) =~= v@.subrange(i + 1, v@.len() as int));
            assert(seq![v@[i as int]] + replace(t.subrange(1, t.len() as int), p@, r@) == replace(t, p@, r@));
            i = i + 1;
        }
    }
    assert(replace(v@.subrange(i as int, v@.len() as int), p@, r@) =~= Seq::<char>::empty());
    out
}

/// `s` with every `a` replaced by `b`.
pub fn replace_char_exec(s: &str, a: char, b: char) -> (out: String)
    ensures
        out@ == replace_char(s@, a, b),
{
    let v = chars_of(s);
    let mut out = String::new();
    let mut i: usize = 0;
    while i < v.len()
        invariant
            i <= v.len(),
            v@ == s@,
            out@ == replace_char(s@.subrange(0, i as int), a, b),
        decreases v.len() - i,
    {
        let c = v[i];
        push_char(&mut out, if c == a { b } else { c });
        i = i + 1;
        assert(replace_char(s@.subrange(0, i as int), a, b) =~= replace_char(s@.subrange(0, i - 1), a, b).push(
            if c == a { b } else { c },
        ));
    }
    assert(s@.subrange(0, i as int) =~= s@);
    out
}

/// `char::to_ascii_uppercase`.
pub fn ascii_upper_exec(c: char) -> (r: char)
    ensures
        r == ascii_upper(c),
{
    if 'a' <= c && c <= 'z' {
        let u: u32 = c as u32 - 32;
        let b: u8 = u as u8;
        b as char
    } else {
        c
    }
}

/// `char::to_ascii_lowercase`.
pub fn ascii_lower_exec(c: char) -> (r: char)
    ensures
        r == ascii_lower(c),
{
    if 'A' <= c && c <= 'Z' {
        let u: u32 = c as u32 + 32;
        let b: u8 = u as u8;
        b as char
    } else {
        c
    }
}

/// The Unicode uppercase of `s` (`str::to_uppercase`).
pub fn upper_exec(s: &str) -> (r: String)
    ensures
        r@ == str_upper(s@),
{
    let v = chars_of(s);
    let mut out = String::new();
    let mut i: usize = 0;
    while i < v.len()
        invariant
            i <= v.len(),
            v@ == s@,
            out@ == str_upper(s@.subrange(0, i as int)),
        decreases v.len() - i,
    {
        let u = upper_of_char(v[i]);
        out.append(u.as_str());
        proof {
            lemma_flat_map_take(s@, |c: char| upper_char(c), i as int);
        }
        i = i + 1;
    }
    proof {
        lemma_flat_map_all(s@, |c: char| upper_char(c));
    }
    out
}

/// The pieces of `s` between occurrences of `sep`.
pub fn split_exec(s: &str, sep: &str) -> (parts: Vec<String>)
    requires
        sep@.len() > 0,
    ensures
        parts.deep_view() == split(s@, sep@),
{
    let v = chars_of(s);
    let sv = chars_of(sep);
    let mut parts: Vec<String> = Vec::new();
    let mut start: usize = 0;
    assert(v@.subrange(0, v@.len() as int) =~= v@);
    assert(parts.deep_view() =~= Seq::<Seq<char>>::empty());
    loop
        invariant
            start <= v.len(),
            v@ == s@,
            sv@ == sep@,
            sep@.len() > 0,
            parts.deep_view() + split(v@.subrange(start as int, v@.len() as int), sep@) == split(s@, sep@),
        decreases v.len() - start,
    {
        let ghost t = v@.subrange(start as int, v@.len() as int);
        match find_from(&v, &sv, start) {
            None => {
                let piece = string_of_range(&v, start, v.len());
                let ghost before = parts.deep_view();
                parts.push(piece);
                assert(parts.deep_view() =~= before.push(t));
                assert(split(t, sep@) =~= seq![t]);
                assert(parts.deep_view() =~= before + split(t, sep@));
                return parts;
            },
            Some(i) => {
                let piece = string_of_range(&v, start, i);
                let ghost before = parts.deep_view();
                parts.push(piece);
                let ghost k = i - start;
                assert(index_of(t, sep@) == Some(k));
                assert(t.subrange(0, k) =~= v@.subrange(start as int, i as int));
                assert(t.subrange(k + sep@.len(), t.len() as int) =~= v@.subrange(
                    i + sv@.len(),
                    v@.len() as int,
                ));
                assert(parts.deep_view() =~= before.push(t.subrange(0, k)));
                assert(seq![t.subrange(0, k)] + split(t.subrange(k + sep@.len(), t.len() as int), sep@)
                    == split(t, sep@));
                assert(parts.deep_view() + split(v@.subrange(i + sv@.len(), v@.len() as int), sep@) =~= before
                    + split(t, sep@));
                start = i + sv.len();
            },
        }
    }
}

/// Join strings with a separator.
pub fn join_exec(parts: &Vec<String>, sep: &str) -> (r: String)
    ensures
        r@ == join(parts.deep_view(), sep@),
{
    let mut r = String::new();
    let mut i: usize = 0;
    assert(parts.deep_view().subrange(0, 0) =~= Seq::<Seq<char>>::empty());
    while i < parts.len()
        invariant
            i <= parts.len(),
            r@ == join(parts.deep_view().subrange(0, i as int), sep@),
        decreases parts.len() - i,
    {
        let ghost s = parts.deep_view().subrange(0, i + 1);
        assert(s.drop_last() =~= parts.deep_view().subrange(0, i as int));
        assert(s.last() == parts[i as int]@);
        if i > 0 {
            r.append(sep);
        }
        r.append(parts[i].as_str());
        i = i + 1;
    }
    assert(parts.deep_view().subrange(0, i as int) =~= parts.deep_view());
    r
}

} // verus!
