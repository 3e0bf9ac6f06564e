//! The lexicographic order of strings (by code point, the order `String`'s
//! `Ord` gives), and sorting a list of strings by it.

use vstd::prelude::*;

use crate::text::chars_of;

verus! {

/// `a` sorts before or equal to `b`: code point by code point, a proper
/// prefix first.
pub open spec fn lex_le(a: Seq<char>, b: Seq<char>) -> bool
    decreases a.len(),
{
    if a.len() == 0 {
        true
    } else if b.len() == 0 {
        false
    } else if a[0] < b[0] {
        true
    } else if a[0] > b[0] {
        false
    } else {
        lex_le(a.subrange(1, a.len() as int), b.subrange(1, b.len() as int))
    }
}

/// The strings are in order.
pub open spec fn sorted_strings(s: Seq<String>) -> bool {
    forall|i: int, j: int| 0 <= i < j < s.len() ==> #[trigger] lex_le(s[i]@, s[j]@)
}

/// Any two strings are ordered one way or the other.
pub proof fn lemma_lex_total(a: Seq<char>, b: Seq<char>)
    ensures
        lex_le(a, b) || lex_le(b, a),
    decreases a.len(),
{
    if a.len() > 0 && b.len() > 0 && a[0] == b[0] {
        lemma_lex_total(a.subrange(1, a.len() as int), b.subrange(1, b.len() as int));
    }
}

/// The order is transitive.
pub proof fn lemma_lex_trans(a: Seq<char>, b: Seq<char>, c: Seq<char>)
    requires
        lex_le(a, b),
        lex_le(b, c),
    ensures
        lex_le(a, c),
    decreases a.len(),
{
    if a.len() > 0 && b.len() > 0 && c.len() > 0 && a[0] == b[0] && b[0] == c[0] {
        lemma_lex_trans(
            a.subrange(1, a.len() as int),
            b.subrange(1, b.len() as int),
            c.subrange(1, c.len() as int),
        );
    }
}

/// Two strings ordered both ways are equal.
pub proof fn lemma_lex_antisym(a: Seq<char>, b: Seq<char>)
    requires
        lex_le(a, b),
        lex_le(b, a),
    ensures
        a == b,
    decreases a.len(),
{
    if a.len() > 0 && b.len() > 0 {
        let (ta, tb) = (a.subrange(1, a.len() as int), b.subrange(1, b.len() as int));
        lemma_lex_antisym(ta, tb);
        assert(a[0] == b[0]);
        assert(a =~= seq![a[0]] + ta);
        assert(b =~= seq![b[0]] + tb);
    }
}

/// Whether `a` sorts before or equal to `b`.
pub fn lex_le_exec(a: &str, b: &str) -> (r: bool)
    ensures
        r == lex_le(a@, b@),
{
    let va = chars_of(a);
    let vb = chars_of(b);
    let mut i: usize = 0;
    assert(va@.subrange(0, va@.len() as int) =~= va@);
    assert(vb@.subrange(0, vb@.len() as int) =~= vb@);
    while i < va.len() && i < vb.len()
        invariant
            va@ == a@,
            vb@ == b@,
            i <= va.len(),
            i <= vb.len(),
            lex_le(a@, b@) == lex_le(va@.subrange(i as int, va@.len() as int), vb@.subrange(i as int, vb@.len() as int)),
        decreases va.len() - i,
    {
        let ghost ta = va@.subrange(i as int, va@.len() as int);
        let ghost tb = vb@.subrange(i as int, vb@.len() as int);
        assert(ta[0] == va@[i as int] && tb[0] == vb@[i as int]);
        assert(ta.subrange(1, ta.len() as int) =~= va@.subrange(i + 1, va@.len() as int));
        assert(tb.subrange(1, tb.len() as int) =~= vb@.subrange(i + 1, vb@.len() as int));
        let (x, y) = (va[i], vb[i]);
        if x < y {
            return true;
        }
        if x > y {
            return false;
        }
        i = i + 1;
    }
    i == va.len()
}

/// `x` inserted into `s` after the leading elements ordered before or
/// equal to it: the step of a stable insertion sort.
pub open spec fn insert_by<T>(s: Seq<T>, x: T, le: spec_fn(T, T) -> bool) -> Seq<T>
    decreases s.len(),
{
    if s.len() == 0 {
        seq![x]
    } else if le(s[0], x) {
        seq![s[0]] + insert_by(s.drop_first(), x, le)
    } else {
        seq![x] + s
    }
}

/// The stable insertion sort of `s` by `le`.
pub open spec fn sort_by<T>(s: Seq<T>, le: spec_fn(T, T) -> bool) -> Seq<T>
    decreases s.len(),
{
    if s.len() == 0 {
        s
    } else {
        insert_by(sort_by(s.drop_last(), le), s.last(), le)
    }
}

/// Inserting at the first position whose element is not ordered before or
/// equal to `x` is the insertion step of [`sort_by`].
pub proof fn lemma_insert_at<T>(s: Seq<T>, x: T, j: int, le: spec_fn(T, T) -> bool)
    requires
        0 <= j <= s.len(),
        forall|k: int| 0 <= k < j ==> #[trigger] le(s[k], x),
        j < s.len() ==> !le(s[j], x),
    ensures
        s.insert(j, x) == insert_by(s, x, le),
    decreases s.len(),
{
    if j == 0 {
        if s.len() == 0 {
            assert(s.insert(0, x) =~= seq![x]);
        } else {
            assert(s.insert(0, x) =~= seq![x] + s);
        }
    } else {
        let t = s.drop_first();
        assert forall|k: int| 0 <= k < j - 1 implies #[trigger] le(t[k], x) by {
            assert(t[k] == s[k + 1]);
            assert(le(s[k + 1], x));
        }
        if j - 1 < t.len() {
            assert(t[j - 1] == s[j]);
        }
        assert(le(s[0], x));
        lemma_insert_at(t, x, j - 1, le);
        assert(s.insert(j, x) =~= seq![s[0]] + t.insert(j - 1, x));
    }
}

/// The lexicographic order as a spec function value.
pub open spec fn lex_le_fn() -> spec_fn(Seq<char>, Seq<char>) -> bool {
    |a: Seq<char>, b: Seq<char>| lex_le(a, b)
}

/// The strings of `s` in lexicographic order.
pub open spec fn sorted_spec(s: Seq<Seq<char>>) -> Seq<Seq<char>> {
    sort_by(s, lex_le_fn())
}

/// Sort a list of strings in place into lexicographic order.
pub fn sort_strings(v: &mut Vec<String>)
    ensures
        sorted_strings(final(v)@),
        final(v).deep_view().to_multiset() == old(v).deep_view().to_multiset(),
        final(v).deep_view() == sorted_spec(old(v).deep_view()),
{
    let ghost orig = v@;
    let ghost origv = v.deep_view();
    assert(orig.len() == v.len());
    let mut src: Vec<String> = Vec::new();
    std::mem::swap(&mut src, v);
    assert(src@ == orig);
    let mut out: Vec<String> = Vec::new();
    let mut k: usize = 0;
    proof {
        broadcast use vstd::seq_lib::group_to_multiset_ensures;

        assert(origv.subrange(0, 0) =~= Seq::<Seq<char>>::empty());
        assert(out.deep_view() =~= Seq::<Seq<char>>::empty());
    }
    while src.len() > 0
        invariant
            k <= orig.len(),
            orig.len() <= usize::MAX,
            src@ == orig.subrange(k as int, orig.len() as int),
            sorted_strings(out@),
            origv == Seq::new(orig.len(), |i: int| orig[i]@),
            out.deep_view().to_multiset() == origv.subrange(0, k as int).to_multiset(),
            out.deep_view() == sorted_spec(origv.subrange(0, k as int)),
        decreases src.len(),
    {
        let x = src.remove(0);
        assert(x == orig[k as int]);
        let mut j: usize = 0;
        while j < out.len() && lex_le_exec(out[j].as_str(), x.as_str())
            invariant
                j <= out.len(),
                forall|i: int| 0 <= i < j ==> lex_le((#[trigger] out@[i])@, x@),
            decreases out.len() - j,
        {
            j = j + 1;
        }
        let ghost before = out@;
        let ghost beforev = out.deep_view();
        proof {
            if j < out.len() {
                assert(!lex_le(out@[j as int]@, x@));
                lemma_lex_total(out@[j as int]@, x@);
            }
        }
        proof {
            assert forall|q: int| 0 <= q < j implies #[trigger] lex_le_fn()(beforev[q], x@) by {
                assert(lex_le(out@[q]@, x@));
            }
            if j < out.len() {
                assert(!lex_le_fn()(beforev[j as int], x@));
            }
            lemma_insert_at(beforev, x@, j as int, lex_le_fn());
            let sub = origv.subrange(0, k + 1);
            assert(sub.drop_last() =~= origv.subrange(0, k as int));
            assert(sub.last() == x@);
        }
        out.insert(j, x);
        proof {
            broadcast use vstd::seq_lib::to_multiset_insert;

            assert(out@ == before.insert(j as int, x));
            assert(out.deep_view() =~= beforev.insert(j as int, x@));
            assert(origv.subrange(0, k + 1) =~= origv.subrange(0, k as int).push(x@));
            assert(origv.subrange(0, k as int).push(x@).to_multiset() =~= origv.subrange(0, k as int).to_multiset().insert(
                x@,
            )) by {
                broadcast use vstd::seq_lib::group_to_multiset_ensures;

            }
            assert forall|a: int, b: int| 0 <= a < b < out@.len() implies #[trigger] lex_le(out@[a]@, out@[b]@) by {
                let o = out@;
                if b < j {
                    assert(o[a] == before[a] && o[b] == before[b]);
                } else if b == j {
                    assert(o[a] == before[a]);
                } else if a == j {
                    assert(o[b] == before[b - 1]);
                    if j < before.len() {
                        assert(lex_le(x@, before[j as int]@));
                        if j < b - 1 {
                            assert(lex_le(before[j as int]@, before[b - 1]@));
                            lemma_lex_trans(x@, before[j as int]@, before[b - 1]@);
                        }
                    }
                } else if a < j {
                    assert(o[a] == before[a] && o[b] == before[b - 1]);
                    assert(lex_le(before[a]@, before[b - 1]@));
                } else {
                    assert(o[a] == before[a - 1] && o[b] == before[b - 1]);
                    assert(lex_le(before[a - 1]@, before[b - 1]@));
                }
            }
        }
        k = k + 1;
    }
    assert(origv.subrange(0, k as int) =~= origv);
    *v = out;
}

/// No string occurs twice.
pub open spec fn distinct_strings(s: Seq<Seq<char>>) -> bool {
    forall|i: int, j: int| 0 <= i < j < s.len() ==> s[i] != s[j]
}

/// `s` with each run of equal adjacent strings kept once.
pub open spec fn dedup_spec(s: Seq<Seq<char>>) -> Seq<Seq<char>>
    decreases s.len(),
{
    if s.len() == 0 {
        s
    } else {
        let d = dedup_spec(s.drop_last());
        if d.len() > 0 && d.last() == s.last() {
            d
        } else {
            d.push(s.last())
        }
    }
}

/// The distinct strings of `s`, sorted.
pub open spec fn sorted_set(s: Seq<Seq<char>>) -> Seq<Seq<char>> {
    dedup_spec(sorted_spec(s))
}

/// Drop the repeats from a sorted list: what is left is still sorted, holds
/// each string once, and holds exactly the strings of the input.
pub fn dedup_sorted(v: &Vec<String>) -> (r: Vec<String>)
    requires
        sorted_strings(v@),
    ensures
        sorted_strings(r@),
        distinct_strings(r.deep_view()),
        forall|x: Seq<char>| r.deep_view().contains(x) <==> v.deep_view().contains(x),
        r.deep_view() == dedup_spec(v.deep_view()),
{
    let mut out: Vec<String> = Vec::new();
    let mut i: usize = 0;
    while i < v.len()
        invariant
            i <= v.len(),
            sorted_strings(v@),
            sorted_strings(out@),
            distinct_strings(out.deep_view()),
            out@.len() > 0 ==> forall|j: int| i <= j < v@.len() ==> lex_le(out@.last()@, #[trigger] v@[j]@),
            forall|x: Seq<char>|
                out.deep_view().contains(x) <==> v.deep_view().subrange(0, i as int).contains(x),
            out.deep_view() == dedup_spec(v.deep_view().subrange(0, i as int)),
        decreases v.len() - i,
    {
        let ghost before = out.deep_view();
        let ghost pre = v.deep_view().subrange(0, i as int);
        assert(v.deep_view().subrange(0, i + 1) =~= pre.push(v@[i as int]@));
        assert(pre.push(v@[i as int]@).drop_last() =~= pre);
        let keep = if out.len() == 0 {
            true
        } else {
            let last = out.len() - 1;
            !crate::text::str_eq(out[last].as_str(), v[i].as_str())
        };
        if keep {
            let x = v[i].clone();
            proof {
                assert forall|k: int| 0 <= k < before.len() implies before[k] != x@ && lex_le(before[k], x@) by {
                    let last = out@.last()@;
                    assert(lex_le(last, v@[i as int]@));
                    if k < before.len() - 1 {
                        assert(lex_le(out@[k]@, out@[before.len() - 1]@));
                        lemma_lex_trans(before[k], last, x@);
                        if before[k] == x@ {
                            lemma_lex_antisym(last, x@);
                        }
                    }
                }
            }
            out.push(x);
            proof {
                assert(out.deep_view() =~= before.push(x@));
                assert forall|a: int, b: int| 0 <= a < b < out@.len() implies #[trigger] lex_le(out@[a]@, out@[b]@) by {
                    if b == out@.len() - 1 {
                        assert(out@[a]@ == before[a]);
                    }
                }
                assert forall|j: int| i + 1 <= j < v@.len() implies lex_le(out@.last()@, #[trigger] v@[j]@) by {
                    assert(lex_le(v@[i as int]@, v@[j]@));
                }
                assert forall|y: Seq<char>| out.deep_view().contains(y) <==> pre.push(x@).contains(y) by {
                    if pre.push(x@).contains(y) && y != x@ {
                        let k = choose|k: int| 0 <= k < pre.push(x@).len() && pre.push(x@)[k] == y;
                        assert(pre.contains(y) && pre[k] == y);
                        assert(before.contains(y));
                        let q = choose|q: int| 0 <= q < before.len() && before[q] == y;
                        assert(out.deep_view()[q] == y);
                    }
                    if out.deep_view().contains(y) && y != x@ {
                        let q = choose|q: int| 0 <= q < out.deep_view().len() && out.deep_view()[q] == y;
                        assert(before[q] == y);
                        assert(before.contains(y));
                        let k = choose|k: int| 0 <= k < pre.len() && pre[k] == y;
                        assert(pre.push(x@)[k] == y);
                    }
                    if y == x@ {
                        assert(out.deep_view()[out.deep_view().len() - 1] == y);
                        assert(pre.push(x@)[pre.len() as int] == y);
                    }
                }
            }
        } else {
            proof {
                let x = v@[i as int]@;
                assert(out@.last()@ == x);
                assert(before[before.len() - 1] == x);
                assert forall|y: Seq<char>| out.deep_view().contains(y) <==> pre.push(x).contains(y) by {
                    if pre.push(x).contains(y) && y != x {
                        let k = choose|k: int| 0 <= k < pre.push(x).len() && pre.push(x)[k] == y;
                        assert(pre[k] == y);
                    }
                    if out.deep_view().contains(y) {
                        assert(pre.contains(y));
                        let k = choose|k: int| 0 <= k < pre.len() && pre[k] == y;
                        assert(pre.push(x)[k] == y);
                    }
                }
            }
        }
        i = i + 1;
    }
    assert(v.deep_view().subrange(0, i as int) =~= v.deep_view());
    out
}

} // verus!
