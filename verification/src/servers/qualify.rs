//! Which type names a function's signature must qualify with its surface's
//! types path: a bare name imported by more than one surface belongs to the
//! lowest surface that uses it, and the others spell it out in full.

use vstd::prelude::*;

use crate::servers::config::ApiSurface;
use crate::servers::imports::{add_names, collect_type_import, ty_names};
use crate::servers::parse::{ApiFn, ApiModule, Param};
use crate::text::str_eq;

verus! {

/// The bare names of the parameter types of `ps`, added in turn.
pub open spec fn params_names(ps: Seq<Param>, acc: Seq<Seq<char>>) -> Seq<Seq<char>>
    decreases ps.len(),
{
    if ps.len() == 0 {
        acc
    } else {
        add_names(ty_names(ps.last().ty_ast), params_names(ps.drop_last(), acc))
    }
}

/// The bare type names a function's signature imports: the return type's,
/// then each parameter's, each once.
pub open spec fn fn_type_names(f: ApiFn) -> Seq<Seq<char>> {
    params_names(f.params@, add_names(ty_names(f.return_type_ast), Seq::empty()))
}

/// Bare type names a function's signature imports.
pub fn fn_type_imports(f: &ApiFn) -> (r: Vec<String>)
    ensures
        r.deep_view() == fn_type_names(*f),
{
    let mut names: Vec<String> = Vec::new();
    assert(names.deep_view() =~= Seq::<Seq<char>>::empty());
    collect_type_import(&f.return_type_ast, &mut names);
    let ghost start = names.deep_view();
    let mut i: usize = 0;
    assert(f.params@.subrange(0, 0) =~= Seq::<Param>::empty());
    while i < f.params.len()
        invariant
            i <= f.params.len(),
            start == add_names(ty_names(f.return_type_ast), Seq::empty()),
            names.deep_view() == params_names(f.params@.subrange(0, i as int), start),
        decreases f.params.len() - i,
    {
        let ghost s = f.params@.subrange(0, i + 1);
        assert(s.drop_last() =~= f.params@.subrange(0, i as int));
        assert(s.last() == f.params@[i as int]);
        collect_type_import(&f.params[i].ty_ast, &mut names);
        i = i + 1;
    }
    assert(f.params@.subrange(0, i as int) =~= f.params@);
    names
}

/// The functions of all modules, in order.
pub open spec fn all_fns(ms: Seq<ApiModule>) -> Seq<ApiFn>
    decreases ms.len(),
{
    if ms.len() == 0 {
        Seq::empty()
    } else {
        all_fns(ms.drop_last()) + ms.last().functions@
    }
}

/// `s` is the lowest surface among the functions of `fl` (and, when `extra`
/// holds `n`, the surface `extra_surface`) whose signature imports `n`.
pub open spec fn owner_in(fl: Seq<ApiFn>, extra: Seq<Seq<char>>, extra_surface: int, n: Seq<char>, s: int) -> bool {
    &&& ((exists|k: int| 0 <= k < fl.len() && #[trigger] fn_type_names(fl[k]).contains(n) && fl[k].surface == s)
        || (extra.contains(n) && extra_surface == s))
    &&& forall|k: int| 0 <= k < fl.len() && #[trigger] fn_type_names(fl[k]).contains(n) ==> s <= fl[k].surface
    &&& extra.contains(n) ==> s <= extra_surface
}

/// `s` is the lowest surface whose functions import `n`: the surface that
/// owns the bare name.
pub open spec fn owner_surface(fl: Seq<ApiFn>, n: Seq<char>, s: int) -> bool {
    owner_in(fl, Seq::empty(), 0, n, s)
}

/// A function on a surface with types path `own_path` qualifies `n`: the
/// surface owning `n` imports types from another path.
pub open spec fn qualifies(fl: Seq<ApiFn>, surfaces: Seq<ApiSurface>, n: Seq<char>, own_path: Seq<char>) -> bool {
    exists|s: int| owner_surface(fl, n, s) && surfaces[s].types_import_path@ != own_path
}

/// The names a function qualifies, in the order its signature imports them.
pub open spec fn qualified_names(fl: Seq<ApiFn>, surfaces: Seq<ApiSurface>, f: ApiFn) -> Seq<Seq<char>> {
    fn_type_names(f).filter(|n: Seq<char>| qualifies(fl, surfaces, n, surfaces[f.surface as int].types_import_path@))
}

/// A name has one owning surface.
pub proof fn lemma_owner_unique(fl: Seq<ApiFn>, n: Seq<char>, s1: int, s2: int)
    requires
        owner_surface(fl, n, s1),
        owner_surface(fl, n, s2),
    ensures
        s1 == s2,
{
    let k1 = choose|k: int| 0 <= k < fl.len() && #[trigger] fn_type_names(fl[k]).contains(n) && fl[k].surface == s1;
    let k2 = choose|k: int| 0 <= k < fl.len() && #[trigger] fn_type_names(fl[k]).contains(n) && fl[k].surface == s2;
    assert(s1 <= fl[k2].surface);
    assert(s2 <= fl[k1].surface);
}

/// Folding one more function's names into the owners of a prefix gives
/// the owners of the longer prefix.
proof fn lemma_owner_step(fl: Seq<ApiFn>, k: int, n: Seq<char>, s: int)
    requires
        0 <= k < fl.len(),
    ensures
        owner_in(fl.subrange(0, k), fn_type_names(fl[k]), fl[k].surface as int, n, s) <==> owner_in(
            fl.subrange(0, k + 1),
            Seq::empty(),
            0,
            n,
            s,
        ),
{
    let a = fl.subrange(0, k);
    let b = fl.subrange(0, k + 1);
    assert forall|q: int| 0 <= q < k implies b[q] == a[q] by {}
    assert(b[k] == fl[k]);
    if owner_in(a, fn_type_names(fl[k]), fl[k].surface as int, n, s) {
        if fn_type_names(fl[k]).contains(n) && fl[k].surface == s {
            assert(fn_type_names(b[k]).contains(n) && b[k].surface == s);
        } else {
            let q = choose|q: int| 0 <= q < a.len() && #[trigger] fn_type_names(a[q]).contains(n) && a[q].surface == s;
            assert(fn_type_names(b[q]).contains(n) && b[q].surface == s);
        }
        assert forall|q: int| 0 <= q < b.len() && #[trigger] fn_type_names(b[q]).contains(n) implies s
            <= b[q].surface by {
            if q < k {
                assert(fn_type_names(a[q]).contains(n));
            }
        }
    }
    if owner_in(b, Seq::empty(), 0, n, s) {
        let q = choose|q: int| 0 <= q < b.len() && #[trigger] fn_type_names(b[q]).contains(n) && b[q].surface == s;
        if q < k {
            assert(fn_type_names(a[q]).contains(n) && a[q].surface == s);
        }
        assert forall|q: int| 0 <= q < a.len() && #[trigger] fn_type_names(a[q]).contains(n) implies s
            <= a[q].surface by {
            assert(fn_type_names(b[q]).contains(n));
        }
        if fn_type_names(fl[k]).contains(n) {
            assert(fn_type_names(b[k]).contains(n));
        }
    }
}

/// A bare name stays bare for every function whose surface takes types
/// from the same path as the surface owning the name: the owning surface
/// itself, and any surface sharing its types path.
pub proof fn law_owner_path_keeps_bare_names(
    fl: Seq<ApiFn>,
    surfaces: Seq<ApiSurface>,
    f: ApiFn,
    n: Seq<char>,
    s: int,
)
    requires
        owner_surface(fl, n, s),
        surfaces[f.surface as int].types_import_path@ == surfaces[s].types_import_path@,
    ensures
        !qualified_names(fl, surfaces, f).contains(n),
{
    let own = surfaces[f.surface as int].types_import_path@;
    if qualifies(fl, surfaces, n, own) {
        let s2 = choose|s2: int| owner_surface(fl, n, s2) && surfaces[s2].types_import_path@ != own;
        lemma_owner_unique(fl, n, s, s2);
    }
    let pred = |m: Seq<char>| qualifies(fl, surfaces, m, own);
    let q = fn_type_names(f).filter(pred);
    if q.contains(n) {
        let i = choose|i: int| 0 <= i < q.len() && q[i] == n;
        fn_type_names(f).lemma_filter_pred(pred, i);
    }
}

/// Every function's surface indexes `surfaces`.
pub open spec fn surfaces_cover(fl: Seq<ApiFn>, surfaces: Seq<ApiSurface>) -> bool {
    forall|k: int| 0 <= k < fl.len() ==> (#[trigger] fl[k]).surface < surfaces.len()
}

fn flatten_fns(modules: &Vec<ApiModule>) -> (r: Vec<&ApiFn>)
    ensures
        Seq::new(r@.len(), |i: int| *r@[i]) == all_fns(modules@),
{
    let mut out: Vec<&ApiFn> = Vec::new();
    let mut i: usize = 0;
    assert(modules@.subrange(0, 0) =~= Seq::<ApiModule>::empty());
    assert(Seq::new(out@.len(), |q: int| *out@[q]) =~= Seq::<ApiFn>::empty());
    while i < modules.len()
        invariant
            i <= modules.len(),
            Seq::new(out@.len(), |q: int| *out@[q]) == all_fns(modules@.subrange(0, i as int)),
        decreases modules.len() - i,
    {
        let m = &modules[i];
        let ghost s = modules@.subrange(0, i + 1);
        assert(s.drop_last() =~= modules@.subrange(0, i as int));
        assert(s.last() == *m);
        let ghost base = Seq::new(out@.len(), |q: int| *out@[q]);
        let mut j: usize = 0;
        while j < m.functions.len()
            invariant
                j <= m.functions.len(),
                Seq::new(out@.len(), |q: int| *out@[q]) == base + m.functions@.subrange(0, j as int),
            decreases m.functions.len() - j,
        {
            let ghost prev = Seq::new(out@.len(), |q: int| *out@[q]);
            out.push(&m.functions[j]);
            assert(Seq::new(out@.len(), |q: int| *out@[q]) =~= prev.push(m.functions@[j as int]));
            assert(m.functions@.subrange(0, j + 1) =~= m.functions@.subrange(0, j as int).push(
                m.functions@[j as int],
            ));
            j = j + 1;
        }
        assert(m.functions@.subrange(0, j as int) =~= m.functions@);
        i = i + 1;
    }
    assert(modules@.subrange(0, i as int) =~= modules@);
    out
}

/// The position in `owners` of the entry for `n`, if any.
fn find_owner(owners: &Vec<(String, usize)>, n: &str) -> (r: Option<usize>)
    ensures
        match r {
            Some(q) => q < owners@.len() && owners@[q as int].0@ == n@,
            None => forall|q: int| 0 <= q < owners@.len() ==> (#[trigger] owners@[q]).0@ != n@,
        },
{
    let mut q: usize = 0;
    while q < owners.len()
        invariant
            q <= owners.len(),
            forall|p: int| 0 <= p < q ==> (#[trigger] owners@[p]).0@ != n@,
        decreases owners.len() - q,
    {
        if str_eq(owners[q].0.as_str(), n) {
            return Some(q);
        }
        q = q + 1;
    }
    None
}

/// For each module and each of its functions, the bare type names the
/// function's signature must qualify with its surface's types path: those
/// it imports whose owning surface — the lowest surface that imports the
/// name — takes types from another path.
pub fn shared_type_qualifications(modules: &Vec<ApiModule>, surfaces: &Vec<ApiSurface>) -> (r: Vec<Vec<Vec<String>>>)
    requires
        surfaces_cover(all_fns(modules@), surfaces@),
    ensures
        r@.len() == modules@.len(),
        forall|i: int|
            0 <= i < modules@.len() ==> (#[trigger] r@[i])@.len() == modules@[i].functions@.len() && forall|j: int|
                0 <= j < modules@[i].functions@.len() ==> (#[trigger] r@[i]@[j]).deep_view() == qualified_names(
                    all_fns(modules@),
                    surfaces@,
                    modules@[i].functions@[j],
                ),
{
    let flat = flatten_fns(modules);
    let ghost fl = all_fns(modules@);
    let mut owners: Vec<(String, usize)> = Vec::new();
    let mut k: usize = 0;
    while k < flat.len()
        invariant
            k <= flat.len(),
            Seq::new(flat@.len(), |i: int| *flat@[i]) == fl,
            fl.len() == flat@.len(),
            forall|p1: int, p2: int|
                0 <= p1 < p2 < owners@.len() ==> (#[trigger] owners@[p1]).0@ != (#[trigger] owners@[p2]).0@,
            forall|q: int|
                0 <= q < owners@.len() ==> owner_in(
                    fl.subrange(0, k as int),
                    Seq::empty(),
                    0,
                    (#[trigger] owners@[q]).0@,
                    owners@[q].1 as int,
                ),
            forall|n: Seq<char>, k2: int|
                0 <= k2 < k && #[trigger] fn_type_names(fl[k2]).contains(n) ==> exists|q: int|
                    0 <= q < owners@.len() && (#[trigger] owners@[q]).0@ == n,
        decreases flat.len() - k,
    {
        let f: &ApiFn = flat[k];
        assert(*f == fl[k as int]);
        let names = fn_type_imports(f);
        let ghost pre = fl.subrange(0, k as int);
        let mut t: usize = 0;
        while t < names.len()
            invariant
                t <= names.len(),
                k < fl.len(),
                *f == fl[k as int],
                pre == fl.subrange(0, k as int),
                names.deep_view() == fn_type_names(*f),
                forall|p1: int, p2: int|
                    0 <= p1 < p2 < owners@.len() ==> (#[trigger] owners@[p1]).0@ != (#[trigger] owners@[p2]).0@,
                forall|q: int|
                    0 <= q < owners@.len() ==> owner_in(
                        pre,
                        names.deep_view().subrange(0, t as int),
                        f.surface as int,
                        (#[trigger] owners@[q]).0@,
                        owners@[q].1 as int,
                    ),
                forall|n: Seq<char>, k2: int|
                    0 <= k2 < k && #[trigger] fn_type_names(fl[k2]).contains(n) ==> exists|q: int|
                        0 <= q < owners@.len() && (#[trigger] owners@[q]).0@ == n,
                forall|n: Seq<char>|
                    #[trigger] names.deep_view().subrange(0, t as int).contains(n) ==> exists|q: int|
                        0 <= q < owners@.len() && (#[trigger] owners@[q]).0@ == n,
            decreases names.len() - t,
        {
            let ghost old_owners = owners@;
            let ghost done = names.deep_view().subrange(0, t as int);
            let ghost next = names.deep_view().subrange(0, t + 1);
            let ghost x = names.deep_view()[t as int];
            assert(next =~= done.push(x));
            let name = &names[t];
            let found = find_owner(&owners, name.as_str());
            let ghost mut updated: int = -1;
            match found {
                Some(q) => {
                    if f.surface < owners[q].1 {
                        let entry = (owners[q].0.clone(), f.surface);
                        owners.set(q, entry);
                        proof {
                            updated = q as int;
                        }
                    }
                },
                None => {
                    owners.push((name.clone(), f.surface));
                },
            }
            proof {
                assert forall|p1: int, p2: int|
                    0 <= p1 < p2 < owners@.len() implies (#[trigger] owners@[p1]).0@ != (#[trigger] owners@[p2]).0@ by {
                    if p2 < old_owners.len() {
                        assert(owners@[p1].0@ == old_owners[p1].0@);
                        assert(owners@[p2].0@ == old_owners[p2].0@);
                    } else {
                        assert(owners@[p1].0@ == old_owners[p1].0@);
                    }
                }
                assert(done.contains(x) ==> next.contains(x)) by {
                    if done.contains(x) {
                        let w = choose|w: int| 0 <= w < done.len() && done[w] == x;
                        assert(next[w] == x);
                    }
                }
                assert(next.contains(x)) by {
                    assert(next[t as int] == x);
                }
                assert forall|q: int| 0 <= q < owners@.len() implies owner_in(
                    pre,
                    next,
                    f.surface as int,
                    (#[trigger] owners@[q]).0@,
                    owners@[q].1 as int,
                ) by {
                    let n = owners@[q].0@;
                    if q < old_owners.len() {
                        let on = old_owners[q].0@;
                        let os = old_owners[q].1 as int;
                        assert(on == n);
                        assert(owner_in(pre, done, f.surface as int, on, os));
                        if n != x {
                            assert(owners@[q] == old_owners[q]);
                            assert(next.contains(n) ==> done.contains(n)) by {
                                if next.contains(n) {
                                    let w = choose|w: int| 0 <= w < next.len() && next[w] == n;
                                    assert(done[w] == n);
                                }
                            }
                            assert(done.contains(n) ==> next.contains(n)) by {
                                if done.contains(n) {
                                    let w = choose|w: int| 0 <= w < done.len() && done[w] == n;
                                    assert(next[w] == n);
                                }
                            }
                        } else if q == updated {
                            assert(owners@[q].1 == f.surface);
                            assert(f.surface < os);
                        } else {
                            assert(owners@[q] == old_owners[q]);
                            assert(found == Some(q as usize)) by {
                                assert(old_owners[q].0@ == x);
                                if found is None {
                                    assert(old_owners[q].0@ != x);
                                } else {
                                    let fq = found->0 as int;
                                    assert(old_owners[fq].0@ == x);
                                    if fq != q {
                                        if fq < q {
                                            assert(old_owners[fq].0@ != old_owners[q].0@);
                                        } else {
                                            assert(old_owners[q].0@ != old_owners[fq].0@);
                                        }
                                    }
                                }
                            }
                            assert(!(f.surface < os));
                        }
                    } else {
                        assert(found is None);
                        assert(n == x);
                        assert(owners@[q].1 == f.surface);
                        assert(!done.contains(n)) by {
                            if done.contains(n) {
                                let p = choose|p: int| 0 <= p < old_owners.len() && (#[trigger] old_owners[p]).0@ == n;
                                assert(old_owners[p].0@ != x);
                            }
                        }
                        assert forall|k2: int| 0 <= k2 < pre.len() implies !#[trigger] fn_type_names(pre[k2]).contains(
                            n,
                        ) by {
                            assert(pre[k2] == fl[k2]);
                            if fn_type_names(fl[k2]).contains(n) {
                                let p = choose|p: int| 0 <= p < old_owners.len() && (#[trigger] old_owners[p]).0@ == n;
                                assert(old_owners[p].0@ != x);
                            }
                        }
                    }
                }
                assert forall|n: Seq<char>| #[trigger] next.contains(n) implies exists|q: int|
                    0 <= q < owners@.len() && (#[trigger] owners@[q]).0@ == n by {
                    let w = choose|w: int| 0 <= w < next.len() && next[w] == n;
                    if w < t {
                        assert(done[w] == n);
                        assert(done.contains(n));
                        let p = choose|p: int| 0 <= p < old_owners.len() && (#[trigger] old_owners[p]).0@ == n;
                        assert(owners@[p].0@ == n);
                    } else {
                        assert(n == x);
                        if exists|p: int| 0 <= p < old_owners.len() && (#[trigger] old_owners[p]).0@ == n {
                            let p = choose|p: int| 0 <= p < old_owners.len() && (#[trigger] old_owners[p]).0@ == n;
                            assert(owners@[p].0@ == n);
                        } else {
                            assert(owners@[owners@.len() - 1].0@ == n);
                        }
                    }
                }
                assert forall|n: Seq<char>, k2: int|
                    0 <= k2 < k && #[trigger] fn_type_names(fl[k2]).contains(n) implies exists|q: int|
                    0 <= q < owners@.len() && (#[trigger] owners@[q]).0@ == n by {
                    let p = choose|p: int| 0 <= p < old_owners.len() && (#[trigger] old_owners[p]).0@ == n;
                    assert(owners@[p].0@ == n);
                }
            }
            t = t + 1;
        }
        proof {
            assert(names.deep_view().subrange(0, t as int) =~= fn_type_names(*f));
            assert forall|q: int| 0 <= q < owners@.len() implies owner_in(
                fl.subrange(0, k + 1),
                Seq::empty(),
                0,
                (#[trigger] owners@[q]).0@,
                owners@[q].1 as int,
            ) by {
                lemma_owner_step(fl, k as int, owners@[q].0@, owners@[q].1 as int);
            }
            assert forall|n: Seq<char>, k2: int|
                0 <= k2 < k + 1 && #[trigger] fn_type_names(fl[k2]).contains(n) implies exists|q: int|
                0 <= q < owners@.len() && (#[trigger] owners@[q]).0@ == n by {
                if k2 == k {
                    assert(names.deep_view().subrange(0, t as int).contains(n));
                }
            }
        }
        k = k + 1;
    }
    assert(fl.subrange(0, k as int) =~= fl);
    let total = flat.len();
    let mut result: Vec<Vec<Vec<String>>> = Vec::new();
    let mut i: usize = 0;
    let mut base: usize = 0;
    assert(modules@.subrange(0, 0) =~= Seq::<ApiModule>::empty());
    assert(fl.subrange(0, 0) =~= Seq::<ApiFn>::empty());
    while i < modules.len()
        invariant
            i <= modules.len(),
            fl == all_fns(modules@),
            fl.len() == total,
            surfaces_cover(fl, surfaces@),
            result@.len() == i,
            forall|q: int| 0 <= q < owners@.len() ==> owner_surface(fl, (#[trigger] owners@[q]).0@, owners@[q].1 as int),
            forall|n: Seq<char>, k2: int|
                0 <= k2 < fl.len() && #[trigger] fn_type_names(fl[k2]).contains(n) ==> exists|q: int|
                    0 <= q < owners@.len() && (#[trigger] owners@[q]).0@ == n,
            base == all_fns(modules@.subrange(0, i as int)).len(),
            all_fns(modules@.subrange(0, i as int)) == fl.subrange(0, base as int),
            forall|a: int|
                0 <= a < i ==> (#[trigger] result@[a])@.len() == modules@[a].functions@.len() && forall|j: int|
                    0 <= j < modules@[a].functions@.len() ==> (#[trigger] result@[a]@[j]).deep_view()
                        == qualified_names(fl, surfaces@, modules@[a].functions@[j]),
        decreases modules.len() - i,
    {
        let m = &modules[i];
        let ghost s = modules@.subrange(0, i + 1);
        assert(s.drop_last() =~= modules@.subrange(0, i as int));
        assert(s.last() == *m);
        proof {
            lemma_all_fns_prefix(modules@, i as int);
            let pre = all_fns(modules@.subrange(0, i as int));
            let whole = all_fns(modules@.subrange(0, i + 1));
            assert(whole == pre + m.functions@);
            assert(whole == fl.subrange(0, whole.len() as int));
            assert forall|q: int| 0 <= q < m.functions@.len() implies fl[base + q] == #[trigger] m.functions@[q] by {
                assert(whole[base + q] == m.functions@[q]);
                assert(fl.subrange(0, whole.len() as int)[base + q] == fl[base + q]);
            }
        }
        let mut per_fn: Vec<Vec<String>> = Vec::new();
        let mut j: usize = 0;
        while j < m.functions.len()
            invariant
                j <= m.functions.len(),
                i < modules@.len(),
                *m == modules@[i as int],
                fl == all_fns(modules@),
                surfaces_cover(fl, surfaces@),
                base + m.functions@.len() <= fl.len(),
                forall|q: int| 0 <= q < m.functions@.len() ==> fl[base + q] == #[trigger] m.functions@[q],
                forall|q: int|
                    0 <= q < owners@.len() ==> owner_surface(fl, (#[trigger] owners@[q]).0@, owners@[q].1 as int),
                forall|n: Seq<char>, k2: int|
                    0 <= k2 < fl.len() && #[trigger] fn_type_names(fl[k2]).contains(n) ==> exists|q: int|
                        0 <= q < owners@.len() && (#[trigger] owners@[q]).0@ == n,
                per_fn@.len() == j,
                forall|b: int|
                    0 <= b < j ==> (#[trigger] per_fn@[b]).deep_view() == qualified_names(
                        fl,
                        surfaces@,
                        m.functions@[b],
                    ),
            decreases m.functions.len() - j,
        {
            let f = &m.functions[j];
            assert(fl[base + j] == *f);
            assert(f.surface < surfaces@.len());
            let own = surfaces[f.surface].types_import_path.as_str();
            let names = fn_type_imports(f);
            let mut kept: Vec<String> = Vec::new();
            let mut t: usize = 0;
            while t < names.len()
                invariant
                    t <= names.len(),
                    fl[base + j] == *f,
                    base + j < fl.len(),
                    f.surface < surfaces@.len(),
                    own@ == surfaces@[f.surface as int].types_import_path@,
                    names.deep_view() == fn_type_names(*f),
                    forall|q: int|
                        0 <= q < owners@.len() ==> owner_surface(fl, (#[trigger] owners@[q]).0@, owners@[q].1 as int),
                    forall|n: Seq<char>, k2: int|
                        0 <= k2 < fl.len() && #[trigger] fn_type_names(fl[k2]).contains(n) ==> exists|q: int|
                            0 <= q < owners@.len() && (#[trigger] owners@[q]).0@ == n,
                    surfaces_cover(fl, surfaces@),
                    kept.deep_view() == names.deep_view().subrange(0, t as int).filter(
                        |n: Seq<char>| qualifies(fl, surfaces@, n, own@),
                    ),
                decreases names.len() - t,
            {
                let ghost x = names.deep_view()[t as int];
                assert(names.deep_view().subrange(0, t + 1) =~= names.deep_view().subrange(0, t as int).push(x));
                assert(names.deep_view().subrange(0, t as int).push(x).filter(
                    |n: Seq<char>| qualifies(fl, surfaces@, n, own@),
                ) == {
                    let pf = names.deep_view().subrange(0, t as int).filter(
                        |n: Seq<char>| qualifies(fl, surfaces@, n, own@),
                    );
                    if qualifies(fl, surfaces@, x, own@) {
                        pf.push(x)
                    } else {
                        pf
                    }
                }) by {
                    reveal(Seq::filter);
                    assert(names.deep_view().subrange(0, t as int).push(x).drop_last() =~= names.deep_view().subrange(
                        0,
                        t as int,
                    ));
                }
                assert(fn_type_names(fl[base + j]).contains(x)) by {
                    assert(names.deep_view()[t as int] == x);
                }
                let found = find_owner(&owners, names[t].as_str());
                let q = match found {
                    Some(q) => q,
                    None => {
                        proof {
                            let p = choose|p: int| 0 <= p < owners@.len() && (#[trigger] owners@[p]).0@ == x;
                            assert(owners@[p].0@ != x);
                        }
                        0
                    },
                };
                let owner = owners[q].1;
                proof {
                    let k2 = choose|k2: int|
                        0 <= k2 < fl.len() && #[trigger] fn_type_names(fl[k2]).contains(x) && fl[k2].surface == owner;
                    assert(owner < surfaces@.len());
                }
                let other = !str_eq(surfaces[owner].types_import_path.as_str(), own);
                proof {
                    assert(owner_surface(fl, x, owner as int));
                    if qualifies(fl, surfaces@, x, own@) {
                        let s2 = choose|s2: int| owner_surface(fl, x, s2) && surfaces@[s2].types_import_path@ != own@;
                        lemma_owner_unique(fl, x, s2, owner as int);
                    }
                }
                if other {
                    let ghost before = kept.deep_view();
                    kept.push(names[t].clone());
                    assert(kept.deep_view() =~= before.push(x));
                }
                t = t + 1;
            }
            assert(names.deep_view().subrange(0, t as int) =~= names.deep_view());
            per_fn.push(kept);
            j = j + 1;
        }
        result.push(per_fn);
        proof {
            lemma_all_fns_prefix(modules@, i as int);
            let whole = all_fns(modules@.subrange(0, i + 1));
            assert(whole.len() == base + m.functions@.len());
        }
        base = base + m.functions.len();
        proof {
            lemma_all_fns_prefix(modules@, i as int);
        }
        i = i + 1;
    }
    result
}

/// The functions of a prefix of the modules are a prefix of all functions,
/// followed by the next module's functions.
proof fn lemma_all_fns_prefix(ms: Seq<ApiModule>, i: int)
    requires
        0 <= i < ms.len(),
    ensures
        all_fns(ms.subrange(0, i)).len() + ms[i].functions@.len() <= all_fns(ms).len(),
        all_fns(ms.subrange(0, i + 1)) == all_fns(ms.subrange(0, i)) + ms[i].functions@,
        all_fns(ms.subrange(0, i + 1)) == all_fns(ms).subrange(0, all_fns(ms.subrange(0, i + 1)).len() as int),
    decreases ms.len(),
{
    let s = ms.subrange(0, i + 1);
    assert(s.drop_last() =~= ms.subrange(0, i));
    if i + 1 == ms.len() {
        assert(s =~= ms);
        assert(all_fns(ms).subrange(0, all_fns(ms).len() as int) =~= all_fns(ms));
    } else {
        let d = ms.drop_last();
        assert(d.subrange(0, i) =~= ms.subrange(0, i));
        assert(d.subrange(0, i + 1) =~= ms.subrange(0, i + 1));
        lemma_all_fns_prefix(d, i);
        let a = all_fns(d);
        assert(all_fns(ms) == a + ms.last().functions@);
        let l = all_fns(s).len() as int;
        assert(all_fns(ms).subrange(0, l) =~= a.subrange(0, l));
    }
}

} // verus!
