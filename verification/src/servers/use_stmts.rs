//! The `use` blocks of generated handler files: one block per distinct
//! service import path, then one per distinct types import path that has
//! names to import, each listing its items sorted and once.

use vstd::prelude::*;

use crate::order::{dedup_sorted, dedup_spec, sort_strings, sorted_set, sorted_spec};
use crate::servers::config::Config;
use crate::servers::parse::{decimal, ApiFn, ApiModule, EventFn};
use crate::servers::qualify::{all_fns, fn_type_imports, fn_type_names};
use crate::text::{concat, str_eq};

verus! {

/// The service import path of surface `s`.
pub open spec fn service_path(c: Config, s: int) -> Seq<char> {
    if s == 0 {
        c.service_import_path@
    } else {
        c.extra_surfaces@[s - 1].service_import_path@
    }
}

/// The types import path of surface `s`.
pub open spec fn types_path(c: Config, s: int) -> Seq<char> {
    if s == 0 {
        c.types_import_path@
    } else {
        c.extra_surfaces@[s - 1].types_import_path@
    }
}

/// How a module is imported for a function of surface `s`: by its name on
/// its base surface, else renamed to `{name}_{s}`.
pub open spec fn entry_spec(m: ApiModule, s: usize) -> Seq<char> {
    if m.base_surface_is(s) {
        m.name@
    } else {
        m.name@ + " as "@ + m.name@ + "_"@ + decimal(s as nat)
    }
}

/// The (path, item) pairs of a module's functions, in order.
pub open spec fn fn_service_pairs(c: Config, m: ApiModule, fs: Seq<ApiFn>) -> Seq<(Seq<char>, Seq<char>)>
    decreases fs.len(),
{
    if fs.len() == 0 {
        Seq::empty()
    } else {
        fn_service_pairs(c, m, fs.drop_last()).push(
            (service_path(c, fs.last().surface as int), entry_spec(m, fs.last().surface)),
        )
    }
}

/// The (path, item) pairs of a module's events, in order.
pub open spec fn ev_service_pairs(c: Config, m: ApiModule, es: Seq<EventFn>) -> Seq<(Seq<char>, Seq<char>)>
    decreases es.len(),
{
    if es.len() == 0 {
        Seq::empty()
    } else {
        ev_service_pairs(c, m, es.drop_last()).push(
            (service_path(c, es.last().surface as int), entry_spec(m, es.last().surface)),
        )
    }
}

/// The service (path, item) pairs of every module: functions, then events.
pub open spec fn service_pairs(c: Config, ms: Seq<ApiModule>) -> Seq<(Seq<char>, Seq<char>)>
    decreases ms.len(),
{
    if ms.len() == 0 {
        Seq::empty()
    } else {
        service_pairs(c, ms.drop_last()) + fn_service_pairs(c, ms.last(), ms.last().functions@) + ev_service_pairs(
            c,
            ms.last(),
            ms.last().events@,
        )
    }
}

/// The type (path, name) pairs of the functions: each function's imported
/// names under its surface's types path.
pub open spec fn type_pairs(c: Config, fl: Seq<ApiFn>) -> Seq<(Seq<char>, Seq<char>)>
    decreases fl.len(),
{
    if fl.len() == 0 {
        Seq::empty()
    } else {
        let f = fl.last();
        type_pairs(c, fl.drop_last()) + fn_type_names(f).map_values(|n: Seq<char>| (types_path(c, f.surface as int), n))
    }
}

/// The types paths of the functions, in order.
pub open spec fn type_keys(c: Config, fl: Seq<ApiFn>) -> Seq<Seq<char>> {
    fl.map_values(|f: ApiFn| types_path(c, f.surface as int))
}

/// The paths of a list of pairs.
pub open spec fn keys(pairs: Seq<(Seq<char>, Seq<char>)>) -> Seq<Seq<char>> {
    pairs.map_values(|q: (Seq<char>, Seq<char>)| q.0)
}

/// The items paired with `p`, in order.
pub open spec fn items_at(pairs: Seq<(Seq<char>, Seq<char>)>, p: Seq<char>) -> Seq<Seq<char>>
    decreases pairs.len(),
{
    if pairs.len() == 0 {
        Seq::empty()
    } else {
        items_at(pairs.drop_last(), p) + if pairs.last().0 == p {
            seq![pairs.last().1]
        } else {
            Seq::empty()
        }
    }
}

/// `use {path}::{` then one indented item per line, then `};`.
pub open spec fn render_use(p: Seq<char>, items: Seq<Seq<char>>) -> Seq<char> {
    "use "@ + p + "::{\n"@ + concat(items.map_values(|i: Seq<char>| "    "@ + i + ",\n"@)) + "};\n"@
}

/// One block per path, with the sorted distinct items paired with it.
pub open spec fn service_blocks(paths: Seq<Seq<char>>, pairs: Seq<(Seq<char>, Seq<char>)>) -> Seq<Seq<char>> {
    paths.map_values(|p: Seq<char>| render_use(p, sorted_set(items_at(pairs, p))))
}

/// One block per path that has items, with its sorted distinct items.
pub open spec fn type_blocks(paths: Seq<Seq<char>>, pairs: Seq<(Seq<char>, Seq<char>)>) -> Seq<Seq<char>>
    decreases paths.len(),
{
    if paths.len() == 0 {
        Seq::empty()
    } else {
        let p = paths.last();
        let items = sorted_set(items_at(pairs, p));
        type_blocks(paths.drop_last(), pairs) + if items.len() > 0 {
            seq![render_use(p, items)]
        } else {
            Seq::empty()
        }
    }
}

/// The `use` blocks of the handler files: services by path, then types by
/// path, paths in order.
pub open spec fn use_stmts_spec(c: Config, ms: Seq<ApiModule>) -> Seq<Seq<char>> {
    let sp = service_pairs(c, ms);
    let tp = type_pairs(c, all_fns(ms));
    service_blocks(sorted_set(keys(sp)), sp) + type_blocks(sorted_set(type_keys(c, all_fns(ms))), tp)
}

/// Every function and event of the modules comes from a configured surface.
pub open spec fn surfaces_known(c: Config, ms: Seq<ApiModule>) -> bool {
    forall|i: int| 0 <= i < ms.len() ==> module_surfaces_known(c, #[trigger] ms[i])
}

/// Every function and event of the module comes from a configured surface.
pub open spec fn module_surfaces_known(c: Config, m: ApiModule) -> bool {
    &&& forall|j: int| 0 <= j < m.functions@.len() ==> (#[trigger] m.functions@[j]).surface <= c.extra_surfaces@.len()
    &&& forall|j: int| 0 <= j < m.events@.len() ==> (#[trigger] m.events@[j]).surface <= c.extra_surfaces@.len()
}

fn service_path_exec(c: &Config, s: usize) -> (r: &String)
    requires
        s <= c.extra_surfaces@.len(),
    ensures
        r@ == service_path(*c, s as int),
{
    if s == 0 {
        &c.service_import_path
    } else {
        &c.extra_surfaces[s - 1].service_import_path
    }
}

fn types_path_exec(c: &Config, s: usize) -> (r: &String)
    requires
        s <= c.extra_surfaces@.len(),
    ensures
        r@ == types_path(*c, s as int),
{
    if s == 0 {
        &c.types_import_path
    } else {
        &c.extra_surfaces[s - 1].types_import_path
    }
}

proof fn lemma_decimal_nonempty(n: nat)
    ensures
        decimal(n).len() >= 1,
    decreases n,
{
    if n >= 10 {
        lemma_decimal_nonempty(n / 10);
    }
}

fn entry(m: &ApiModule, s: usize) -> (r: String)
    ensures
        r@ == entry_spec(*m, s),
{
    let ident = m.service_ident(s);
    if str_eq(ident.as_str(), m.name.as_str()) {
        proof {
            if !m.base_surface_is(s) {
                lemma_decimal_nonempty(s as nat);
                assert(ident@.len() > m.name@.len());
            }
        }
        ident
    } else {
        let mut r = m.name.clone();
        r.append(" as ");
        r.append(ident.as_str());
        proof {
            if m.base_surface_is(s) {
                assert(ident@ == m.name@);
            }
        }
        r
    }
}

/// The sorted distinct items paired with `p`.
fn items_for(paths: &Vec<String>, items: &Vec<String>, p: &str) -> (r: Vec<String>)
    requires
        paths@.len() == items@.len(),
    ensures
        r.deep_view() == sorted_set(items_at(zip(paths.deep_view(), items.deep_view()), p@)),
{
    let mut out: Vec<String> = Vec::new();
    let mut i: usize = 0;
    assert(zip(paths.deep_view(), items.deep_view()).subrange(0, 0) =~= Seq::<(Seq<char>, Seq<char>)>::empty());
    while i < paths.len()
        invariant
            i <= paths.len(),
            paths@.len() == items@.len(),
            out.deep_view() == items_at(zip(paths.deep_view(), items.deep_view()).subrange(0, i as int), p@),
        decreases paths.len() - i,
    {
        let ghost z = zip(paths.deep_view(), items.deep_view());
        let ghost s = z.subrange(0, i + 1);
        assert(s.drop_last() =~= z.subrange(0, i as int));
        assert(s.last() == (paths@[i as int]@, items@[i as int]@));
        if str_eq(paths[i].as_str(), p) {
            let ghost before = out.deep_view();
            out.push(items[i].clone());
            assert(out.deep_view() =~= before + seq![items@[i as int]@]);
        } else {
            assert(out.deep_view() =~= out.deep_view() + Seq::<Seq<char>>::empty());
        }
        i = i + 1;
    }
    assert(zip(paths.deep_view(), items.deep_view()).subrange(0, i as int) =~= zip(paths.deep_view(), items.deep_view()));
    sort_strings(&mut out);
    dedup_sorted(&out)
}

/// Pairs two equally long lists.
pub open spec fn zip(a: Seq<Seq<char>>, b: Seq<Seq<char>>) -> Seq<(Seq<char>, Seq<char>)> {
    Seq::new(a.len(), |i: int| (a[i], b[i]))
}

fn render_use_exec(p: &str, items: &Vec<String>) -> (r: String)
    ensures
        r@ == render_use(p@, items.deep_view()),
{
    let mut body = String::new();
    let mut i: usize = 0;
    while i < items.len()
        invariant
            i <= items.len(),
            body@ == concat(items.deep_view().subrange(0, i as int).map_values(|x: Seq<char>| "    "@ + x + ",\n"@)),
        decreases items.len() - i,
    {
        let ghost before = items.deep_view().subrange(0, i as int).map_values(|x: Seq<char>| "    "@ + x + ",\n"@);
        let mut line = String::from_str("    ");
        line.append(items[i].as_str());
        line.append(",\n");
        body.append(line.as_str());
        let ghost after = items.deep_view().subrange(0, i + 1).map_values(|x: Seq<char>| "    "@ + x + ",\n"@);
        assert(after =~= before.push("    "@ + items@[i as int]@ + ",\n"@));
        assert(after.drop_last() =~= before);
        i = i + 1;
    }
    assert(items.deep_view().subrange(0, i as int) =~= items.deep_view());
    let mut r = String::from_str("use ");
    r.append(p);
    r.append("::{\n");
    r.append(body.as_str());
    r.append("};\n");
    r
}

/// The `use` lines for the service modules and the types the handlers
/// reference: one `use {path}::{...};` block per distinct import path.
/// Surfaces sharing a path share a block; a module imported from a surface
/// other than its base surface is renamed `{module}_{surface}`; a types
/// path with nothing to import gets no block.
pub fn surface_use_stmts(modules: &Vec<ApiModule>, config: &Config) -> (r: Vec<String>)
    requires
        surfaces_known(*config, modules@),
    ensures
        r.deep_view() == use_stmts_spec(*config, modules@),
{
    // Service (path, item) pairs.
    let mut sp_paths: Vec<String> = Vec::new();
    let mut sp_items: Vec<String> = Vec::new();
    // Type (path, name) pairs, and each function's types path.
    let mut tp_paths: Vec<String> = Vec::new();
    let mut tp_items: Vec<String> = Vec::new();
    let mut t_keys: Vec<String> = Vec::new();
    let mut i: usize = 0;
    assert(modules@.subrange(0, 0) =~= Seq::<ApiModule>::empty());
    while i < modules.len()
        invariant
            i <= modules.len(),
            surfaces_known(*config, modules@),
            sp_paths@.len() == sp_items@.len(),
            tp_paths@.len() == tp_items@.len(),
            zip(sp_paths.deep_view(), sp_items.deep_view()) == service_pairs(*config, modules@.subrange(0, i as int)),
            zip(tp_paths.deep_view(), tp_items.deep_view()) == type_pairs(*config, all_fns(modules@.subrange(0, i as int))),
            t_keys.deep_view() == type_keys(*config, all_fns(modules@.subrange(0, i as int))),
        decreases modules.len() - i,
    {
        let m = &modules[i];
        let ghost ms = modules@.subrange(0, i + 1);
        assert(ms.drop_last() =~= modules@.subrange(0, i as int));
        assert(ms.last() == *m);
        let ghost sp0 = zip(sp_paths.deep_view(), sp_items.deep_view());
        let ghost tp0 = zip(tp_paths.deep_view(), tp_items.deep_view());
        let ghost tk0 = t_keys.deep_view();
        let mut j: usize = 0;
        assert(m.functions@.subrange(0, 0) =~= Seq::<ApiFn>::empty());
        assert(sp0 =~= sp0 + fn_service_pairs(*config, *m, m.functions@.subrange(0, 0)));
        assert(tp0 =~= tp0 + type_pairs(*config, m.functions@.subrange(0, 0)));
        assert(tk0 =~= tk0 + type_keys(*config, m.functions@.subrange(0, 0)));
        while j < m.functions.len()
            invariant
                j <= m.functions.len(),
                i < modules@.len(),
                *m == modules@[i as int],
                surfaces_known(*config, modules@),
                sp_paths@.len() == sp_items@.len(),
                tp_paths@.len() == tp_items@.len(),
                zip(sp_paths.deep_view(), sp_items.deep_view()) == sp0 + fn_service_pairs(
                    *config,
                    *m,
                    m.functions@.subrange(0, j as int),
                ),
                zip(tp_paths.deep_view(), tp_items.deep_view()) == tp0 + type_pairs(*config, m.functions@.subrange(0, j as int)),
                t_keys.deep_view() == tk0 + type_keys(*config, m.functions@.subrange(0, j as int)),
            decreases m.functions.len() - j,
        {
            let f = &m.functions[j];
            assert(f.surface <= config.extra_surfaces@.len()) by {
                assert(module_surfaces_known(*config, modules@[i as int]));
                assert(modules@[i as int].functions@[j as int] == *f);
            }
            let ghost fs = m.functions@.subrange(0, j + 1);
            assert(fs.drop_last() =~= m.functions@.subrange(0, j as int));
            assert(fs.last() == *f);
            let ghost spb = zip(sp_paths.deep_view(), sp_items.deep_view());
            sp_paths.push(service_path_exec(config, f.surface).clone());
            sp_items.push(entry(m, f.surface));
            assert(zip(sp_paths.deep_view(), sp_items.deep_view()) =~= spb.push(
                (service_path(*config, f.surface as int), entry_spec(*m, f.surface)),
            ));
            let tpath = types_path_exec(config, f.surface);
            let ghost tkb = t_keys.deep_view();
            t_keys.push(tpath.clone());
            assert(type_keys(*config, fs) =~= type_keys(*config, fs.drop_last()).push(types_path(*config, f.surface as int)));
            assert(t_keys.deep_view() =~= tkb.push(types_path(*config, f.surface as int)));
            let names = fn_type_imports(f);
            let ghost tpb = zip(tp_paths.deep_view(), tp_items.deep_view());
            let mut k: usize = 0;
            while k < names.len()
                invariant
                    k <= names.len(),
                    tp_paths@.len() == tp_items@.len(),
                    tpath@ == types_path(*config, f.surface as int),
                    zip(tp_paths.deep_view(), tp_items.deep_view()) == tpb + names.deep_view().subrange(0, k as int).map_values(
                        |n: Seq<char>| (types_path(*config, f.surface as int), n),
                    ),
                decreases names.len() - k,
            {
                let ghost prev = zip(tp_paths.deep_view(), tp_items.deep_view());
                tp_paths.push(tpath.clone());
                tp_items.push(names[k].clone());
                assert(zip(tp_paths.deep_view(), tp_items.deep_view()) =~= prev.push(
                    (types_path(*config, f.surface as int), names@[k as int]@),
                ));
                assert(names.deep_view().subrange(0, k + 1).map_values(
                    |n: Seq<char>| (types_path(*config, f.surface as int), n),
                ) =~= names.deep_view().subrange(0, k as int).map_values(
                    |n: Seq<char>| (types_path(*config, f.surface as int), n),
                ).push((types_path(*config, f.surface as int), names@[k as int]@)));
                k = k + 1;
            }
            assert(names.deep_view().subrange(0, k as int) =~= names.deep_view());
            assert(type_pairs(*config, fs) == type_pairs(*config, fs.drop_last()) + fn_type_names(*f).map_values(
                |n: Seq<char>| (types_path(*config, f.surface as int), n),
            ));
            proof {
                lemma_type_pairs_concat(*config, tp0, m.functions@.subrange(0, j as int), fs);
            }
            j = j + 1;
        }
        assert(m.functions@.subrange(0, j as int) =~= m.functions@);
        let ghost sp1 = zip(sp_paths.deep_view(), sp_items.deep_view());
        let mut e: usize = 0;
        assert(m.events@.subrange(0, 0) =~= Seq::<EventFn>::empty());
        assert(sp1 =~= sp1 + ev_service_pairs(*config, *m, m.events@.subrange(0, 0)));
        while e < m.events.len()
            invariant
                e <= m.events.len(),
                i < modules@.len(),
                *m == modules@[i as int],
                surfaces_known(*config, modules@),
                sp_paths@.len() == sp_items@.len(),
                zip(sp_paths.deep_view(), sp_items.deep_view()) == sp1 + ev_service_pairs(
                    *config,
                    *m,
                    m.events@.subrange(0, e as int),
                ),
            decreases m.events.len() - e,
        {
            let ev = &m.events[e];
            assert(ev.surface <= config.extra_surfaces@.len()) by {
                assert(module_surfaces_known(*config, modules@[i as int]));
                assert(modules@[i as int].events@[e as int] == *ev);
            }
            let ghost es = m.events@.subrange(0, e + 1);
            assert(es.drop_last() =~= m.events@.subrange(0, e as int));
            assert(es.last() == *ev);
            let ghost spb = zip(sp_paths.deep_view(), sp_items.deep_view());
            sp_paths.push(service_path_exec(config, ev.surface).clone());
            sp_items.push(entry(m, ev.surface));
            assert(zip(sp_paths.deep_view(), sp_items.deep_view()) =~= spb.push(
                (service_path(*config, ev.surface as int), entry_spec(*m, ev.surface)),
            ));
            e = e + 1;
        }
        assert(m.events@.subrange(0, e as int) =~= m.events@);
        proof {
            assert(all_fns(ms) == all_fns(ms.drop_last()) + m.functions@);
            lemma_type_pairs_append(*config, all_fns(modules@.subrange(0, i as int)), m.functions@);
            assert(type_keys(*config, all_fns(ms)) =~= type_keys(*config, all_fns(modules@.subrange(0, i as int)))
                + type_keys(*config, m.functions@));
        }
        i = i + 1;
    }
    assert(modules@.subrange(0, i as int) =~= modules@);
    let ghost sp = zip(sp_paths.deep_view(), sp_items.deep_view());
    let ghost tp = zip(tp_paths.deep_view(), tp_items.deep_view());
    let mut out: Vec<String> = Vec::new();
    let mut keys_sorted = sp_paths.clone();
    assert(keys_sorted.deep_view() == sp_paths.deep_view());
    assert(keys(sp) =~= sp_paths.deep_view());
    sort_strings(&mut keys_sorted);
    let paths = dedup_sorted(&keys_sorted);
    let mut q: usize = 0;
    while q < paths.len()
        invariant
            q <= paths.len(),
            sp_paths@.len() == sp_items@.len(),
            sp == zip(sp_paths.deep_view(), sp_items.deep_view()),
            out.deep_view() == service_blocks(paths.deep_view().subrange(0, q as int), sp),
        decreases paths.len() - q,
    {
        let items = items_for(&sp_paths, &sp_items, paths[q].as_str());
        let ghost before = out.deep_view();
        out.push(render_use_exec(paths[q].as_str(), &items));
        assert(service_blocks(paths.deep_view().subrange(0, q + 1), sp) =~= before.push(
            render_use(paths@[q as int]@, sorted_set(items_at(sp, paths@[q as int]@))),
        ));
        q = q + 1;
    }
    assert(paths.deep_view().subrange(0, q as int) =~= paths.deep_view());
    let ghost svc = out.deep_view();
    let mut tkeys_sorted = t_keys.clone();
    assert(tkeys_sorted.deep_view() == t_keys.deep_view());
    sort_strings(&mut tkeys_sorted);
    let tpaths = dedup_sorted(&tkeys_sorted);
    let mut w: usize = 0;
    assert(tpaths.deep_view().subrange(0, 0) =~= Seq::<Seq<char>>::empty());
    assert(svc =~= svc + type_blocks(tpaths.deep_view().subrange(0, 0), tp));
    while w < tpaths.len()
        invariant
            w <= tpaths.len(),
            tp_paths@.len() == tp_items@.len(),
            tp == zip(tp_paths.deep_view(), tp_items.deep_view()),
            out.deep_view() == svc + type_blocks(tpaths.deep_view().subrange(0, w as int), tp),
        decreases tpaths.len() - w,
    {
        let ghost ps = tpaths.deep_view().subrange(0, w + 1);
        assert(ps.drop_last() =~= tpaths.deep_view().subrange(0, w as int));
        assert(ps.last() == tpaths@[w as int]@);
        let items = items_for(&tp_paths, &tp_items, tpaths[w].as_str());
        if items.len() > 0 {
            let ghost before = out.deep_view();
            out.push(render_use_exec(tpaths[w].as_str(), &items));
            assert(out.deep_view() =~= before + seq![render_use(tpaths@[w as int]@, items.deep_view())]);
        } else {
            assert(out.deep_view() =~= out.deep_view() + Seq::<Seq<char>>::empty());
        }
        w = w + 1;
    }
    assert(tpaths.deep_view().subrange(0, w as int) =~= tpaths.deep_view());
    out
}

/// The type pairs of a list of functions followed by more functions are the
/// pairs of the first list followed by those of the others.
proof fn lemma_type_pairs_append(c: Config, a: Seq<ApiFn>, b: Seq<ApiFn>)
    ensures
        type_pairs(c, a + b) == type_pairs(c, a) + type_pairs(c, b),
    decreases b.len(),
{
    if b.len() == 0 {
        assert(a + b =~= a);
        assert(type_pairs(c, a) + type_pairs(c, b) =~= type_pairs(c, a));
    } else {
        lemma_type_pairs_append(c, a, b.drop_last());
        assert((a + b).drop_last() =~= a + b.drop_last());
        assert((a + b).last() == b.last());
    }
}

/// One more function's pairs extend the running pairs.
proof fn lemma_type_pairs_concat(c: Config, base: Seq<(Seq<char>, Seq<char>)>, pre: Seq<ApiFn>, next: Seq<ApiFn>)
    requires
        next.len() == pre.len() + 1,
        next.drop_last() == pre,
    ensures
        base + type_pairs(c, next) == base + type_pairs(c, pre) + fn_type_names(next.last()).map_values(
            |n: Seq<char>| (types_path(c, next.last().surface as int), n),
        ),
{
    assert(type_pairs(c, next) == type_pairs(c, pre) + fn_type_names(next.last()).map_values(
        |n: Seq<char>| (types_path(c, next.last().surface as int), n),
    ));
    assert(base + type_pairs(c, next) =~= base + type_pairs(c, pre) + fn_type_names(next.last()).map_values(
        |n: Seq<char>| (types_path(c, next.last().surface as int), n),
    ));
}

} // verus!
