//! Spelling a bare type name out in full inside a signature's types: every
//! single-segment path naming it becomes the types path followed by the
//! name, its generic arguments kept.

use vstd::prelude::*;

use crate::servers::config::ApiSurface;
use crate::servers::parse::{ApiFn, ApiModule, GenericArg, Param, PathArgs, PathSegment, TypeAst};
use crate::servers::qualify::{all_fns, qualified_names, shared_type_qualifications, surfaces_cover};
use crate::text::{owned, split, split_exec, str_eq, trim, trim_exec};

verus! {

/// `u` is `t` with every bare single-segment path `name` replaced by
/// `prefix` followed by `name`, looking through references, groups,
/// parentheses, arrays, slices, tuples and the `<...>` arguments of every
/// path segment; other type shapes are left as they are.
pub open spec fn requalified(t: TypeAst, u: TypeAst, name: Seq<char>, prefix: Seq<Seq<char>>) -> bool
    decreases t,
{
    match t {
        TypeAst::Reference(b) => u is Reference && requalified(*b, *u->Reference_0, name, prefix),
        TypeAst::Group(b) => u is Group && requalified(*b, *u->Group_0, name, prefix),
        TypeAst::Paren(b) => u is Paren && requalified(*b, *u->Paren_0, name, prefix),
        TypeAst::Array(b) => u is Array && requalified(*b, *u->Array_0, name, prefix),
        TypeAst::Slice(b) => u is Slice && requalified(*b, *u->Slice_0, name, prefix),
        TypeAst::Tuple(es) => u is Tuple && all_requalified(es@, u->Tuple_0@, name, prefix),
        TypeAst::Path(tp) => {
            &&& u is Path
            &&& u->Path_0.qualified == tp.qualified
            &&& if !tp.qualified && tp.segments@.len() == 1 && tp.segments@[0].ident@ == name {
                let us = u->Path_0.segments@;
                &&& us.len() == prefix.len() + 1
                &&& forall|i: int| 0 <= i < prefix.len() ==> (#[trigger] us[i]).ident@ == prefix[i] && us[i].args is Bare
                &&& us[prefix.len() as int].ident@ == name
                &&& args_requalified(tp.segments@[0].args, us[prefix.len() as int].args, name, prefix)
            } else {
                segs_requalified(tp.segments@, u->Path_0.segments@, name, prefix)
            }
        },
        _ => u == t,
    }
}

/// Each of `us` is the matching one of `ts`, requalified.
pub open spec fn all_requalified(ts: Seq<TypeAst>, us: Seq<TypeAst>, name: Seq<char>, prefix: Seq<Seq<char>>) -> bool
    decreases ts,
{
    if ts.len() == 0 {
        us.len() == 0
    } else {
        &&& us.len() > 0
        &&& requalified(ts[0], us[0], name, prefix)
        &&& all_requalified(ts.subrange(1, ts.len() as int), us.subrange(1, us.len() as int), name, prefix)
    }
}

/// Each of `us` is the matching segment of `ts`, same identifier, its
/// arguments requalified.
pub open spec fn segs_requalified(
    ts: Seq<PathSegment>,
    us: Seq<PathSegment>,
    name: Seq<char>,
    prefix: Seq<Seq<char>>,
) -> bool
    decreases ts,
{
    if ts.len() == 0 {
        us.len() == 0
    } else {
        &&& us.len() > 0
        &&& us[0].ident@ == ts[0].ident@
        &&& args_requalified(ts[0].args, us[0].args, name, prefix)
        &&& segs_requalified(ts.subrange(1, ts.len() as int), us.subrange(1, us.len() as int), name, prefix)
    }
}

/// `b` is `a` with each `<...>` type argument requalified.
pub open spec fn args_requalified(a: PathArgs, b: PathArgs, name: Seq<char>, prefix: Seq<Seq<char>>) -> bool
    decreases a,
{
    match a {
        PathArgs::AngleBracketed(v) => b is AngleBracketed && gargs_requalified(
            v@,
            b->AngleBracketed_0@,
            name,
            prefix,
        ),
        _ => b == a,
    }
}

/// Each of `hs` is the matching generic argument of `gs`, a type argument
/// requalified.
pub open spec fn gargs_requalified(
    gs: Seq<GenericArg>,
    hs: Seq<GenericArg>,
    name: Seq<char>,
    prefix: Seq<Seq<char>>,
) -> bool
    decreases gs,
{
    if gs.len() == 0 {
        hs.len() == 0
    } else {
        &&& hs.len() > 0
        &&& match gs[0] {
            GenericArg::Type(t) => hs[0] is Type && requalified(t, hs[0]->Type_0, name, prefix),
            GenericArg::Other => hs[0] is Other,
        }
        &&& gargs_requalified(gs.subrange(1, gs.len() as int), hs.subrange(1, hs.len() as int), name, prefix)
    }
}

/// The segments of a types path: the pieces between `::`, trimmed.
pub open spec fn path_pieces(path: Seq<char>) -> Seq<Seq<char>> {
    split(path, "::"@).map_values(|p: Seq<char>| trim(p))
}

/// The segments of a types path.
pub fn types_path_pieces(path: &str) -> (r: Vec<String>)
    ensures
        r.deep_view() == path_pieces(path@),
{
    proof {
        reveal_strlit("::");
    }
    let parts = split_exec(path, "::");
    let mut r: Vec<String> = Vec::new();
    let mut i: usize = 0;
    while i < parts.len()
        invariant
            i <= parts.len(),
            parts.deep_view() == split(path@, "::"@),
            r.deep_view() == parts.deep_view().subrange(0, i as int).map_values(|p: Seq<char>| trim(p)),
        decreases parts.len() - i,
    {
        let t = trim_exec(parts[i].as_str());
        let ghost before = r.deep_view();
        r.push(t);
        assert(parts.deep_view().subrange(0, i + 1).map_values(|p: Seq<char>| trim(p)) =~= before.push(
            trim(parts.deep_view()[i as int]),
        ));
        i = i + 1;
    }
    assert(parts.deep_view().subrange(0, i as int) =~= parts.deep_view());
    r
}

/// `h` is the generic argument `g`, requalified.
pub open spec fn garg_requalified(g: GenericArg, h: GenericArg, name: Seq<char>, prefix: Seq<Seq<char>>) -> bool {
    match g {
        GenericArg::Type(t) => h is Type && requalified(t, h->Type_0, name, prefix),
        GenericArg::Other => h is Other,
    }
}

proof fn lemma_gargs_pointwise(gs: Seq<GenericArg>, hs: Seq<GenericArg>, name: Seq<char>, prefix: Seq<Seq<char>>)
    requires
        gs.len() == hs.len(),
        forall|j: int| 0 <= j < gs.len() ==> garg_requalified(#[trigger] gs[j], hs[j], name, prefix),
    ensures
        gargs_requalified(gs, hs, name, prefix),
    decreases gs.len(),
{
    if gs.len() > 0 {
        let a = gs.subrange(1, gs.len() as int);
        let b = hs.subrange(1, hs.len() as int);
        assert(garg_requalified(gs[0], hs[0], name, prefix));
        assert forall|j: int| 0 <= j < a.len() implies garg_requalified(#[trigger] a[j], b[j], name, prefix) by {
            assert(garg_requalified(gs[j + 1], hs[j + 1], name, prefix));
        }
        lemma_gargs_pointwise(a, b, name, prefix);
    }
}

proof fn lemma_all_pointwise(ts: Seq<TypeAst>, us: Seq<TypeAst>, name: Seq<char>, prefix: Seq<Seq<char>>)
    requires
        ts.len() == us.len(),
        forall|j: int| 0 <= j < ts.len() ==> requalified(#[trigger] ts[j], us[j], name, prefix),
    ensures
        all_requalified(ts, us, name, prefix),
    decreases ts.len(),
{
    if ts.len() > 0 {
        let a = ts.subrange(1, ts.len() as int);
        let b = us.subrange(1, us.len() as int);
        assert(requalified(ts[0], us[0], name, prefix));
        assert forall|j: int| 0 <= j < a.len() implies requalified(#[trigger] a[j], b[j], name, prefix) by {
            assert(requalified(ts[j + 1], us[j + 1], name, prefix));
        }
        lemma_all_pointwise(a, b, name, prefix);
    }
}

proof fn lemma_segs_pointwise(ts: Seq<PathSegment>, us: Seq<PathSegment>, name: Seq<char>, prefix: Seq<Seq<char>>)
    requires
        ts.len() == us.len(),
        forall|j: int|
            0 <= j < ts.len() ==> (#[trigger] us[j]).ident@ == ts[j].ident@ && args_requalified(
                ts[j].args,
                us[j].args,
                name,
                prefix,
            ),
    ensures
        segs_requalified(ts, us, name, prefix),
    decreases ts.len(),
{
    if ts.len() > 0 {
        let a = ts.subrange(1, ts.len() as int);
        let b = us.subrange(1, us.len() as int);
        assert(us[0].ident@ == ts[0].ident@);
        assert forall|j: int| 0 <= j < a.len() implies (#[trigger] b[j]).ident@ == a[j].ident@ && args_requalified(
            a[j].args,
            b[j].args,
            name,
            prefix,
        ) by {
            assert(us[j + 1].ident@ == ts[j + 1].ident@);
        }
        lemma_segs_pointwise(a, b, name, prefix);
    }
}

fn qualify_args(args: &mut PathArgs, name: &str, prefix: &Vec<String>)
    ensures
        args_requalified(*old(args), *final(args), name@, prefix.deep_view()),
    decreases *old(args), 0nat,
{
    let ghost start = *args;
    match args {
        PathArgs::AngleBracketed(v) => {
            let ghost orig = v@;
            let mut i: usize = 0;
            while i < v.len()
                invariant
                    i <= v.len(),
                    v@.len() == orig.len(),
                    start == *old(args),
                    start is AngleBracketed,
                    start->AngleBracketed_0@ == orig,
                    forall|j: int| i <= j < orig.len() ==> v@[j] == orig[j],
                    forall|j: int|
                        0 <= j < i ==> garg_requalified(#[trigger] orig[j], v@[j], name@, prefix.deep_view()),
                decreases v.len() - i,
            {
                match &mut v[i] {
                    GenericArg::Type(t) => {
                        proof {
                            assert(decreases_to!(start => start->AngleBracketed_0));
                            assert(decreases_to!(start->AngleBracketed_0 => start->AngleBracketed_0@));
                            assert(decreases_to!(start->AngleBracketed_0@ => orig[i as int]));
                            assert(decreases_to!(orig[i as int] => orig[i as int]->Type_0));
                        }
                        assert(*t == orig[i as int]->Type_0);
                        qualify_type(t, name, prefix);
                    },
                    GenericArg::Other => {},
                }
                i = i + 1;
            }
            proof {
                lemma_gargs_pointwise(orig, v@, name@, prefix.deep_view());
            }
        },
        _ => {},
    }
}

/// Requalify `ty`: every bare single-segment path `name` becomes `prefix`
/// followed by `name`, its generic arguments kept, looking through
/// references, groups, parentheses, arrays, slices, tuples and the `<...>`
/// arguments of every path segment.
pub fn qualify_type(ty: &mut TypeAst, name: &str, prefix: &Vec<String>)
    ensures
        requalified(*old(ty), *final(ty), name@, prefix.deep_view()),
    decreases *old(ty), 1nat,
{
    let ghost start = *ty;
    match ty {
        TypeAst::Reference(b) => qualify_type(&mut **b, name, prefix),
        TypeAst::Group(b) => qualify_type(&mut **b, name, prefix),
        TypeAst::Paren(b) => qualify_type(&mut **b, name, prefix),
        TypeAst::Array(b) => qualify_type(&mut **b, name, prefix),
        TypeAst::Slice(b) => qualify_type(&mut **b, name, prefix),
        TypeAst::Tuple(elems) => {
            let ghost orig = elems@;
            let mut i: usize = 0;
            while i < elems.len()
                invariant
                    i <= elems.len(),
                    elems@.len() == orig.len(),
                    start == *old(ty),
                    start is Tuple,
                    start->Tuple_0@ == orig,
                    forall|j: int| i <= j < orig.len() ==> elems@[j] == orig[j],
                    forall|j: int|
                        0 <= j < i ==> requalified(#[trigger] orig[j], elems@[j], name@, prefix.deep_view()),
                decreases elems.len() - i,
            {
                proof {
                    assert(decreases_to!(start => start->Tuple_0));
                    assert(decreases_to!(start->Tuple_0 => start->Tuple_0@));
                    assert(decreases_to!(start->Tuple_0@ => orig[i as int]));
                }
                assert(elems@[i as int] == orig[i as int]);
                qualify_type(&mut elems[i], name, prefix);
                i = i + 1;
            }
            proof {
                lemma_all_pointwise(orig, elems@, name@, prefix.deep_view());
            }
        },
        TypeAst::Path(tp) => {
            let ghost orig = tp.segments@;
            let rewrite = !tp.qualified && tp.segments.len() == 1 && str_eq(tp.segments[0].ident.as_str(), name);
            if rewrite {
                let mut args = PathArgs::Bare;
                std::mem::swap(&mut args, &mut tp.segments[0].args);
                let mut segs: Vec<PathSegment> = Vec::new();
                let mut k: usize = 0;
                while k < prefix.len()
                    invariant
                        k <= prefix.len(),
                        segs@.len() == k,
                        forall|j: int|
                            0 <= j < k ==> (#[trigger] segs@[j]).ident@ == prefix.deep_view()[j] && segs@[j].args is Bare,
                    decreases prefix.len() - k,
                {
                    segs.push(PathSegment { ident: prefix[k].clone(), args: PathArgs::Bare });
                    k = k + 1;
                }
                segs.push(PathSegment { ident: owned(name), args });
                tp.segments = segs;
            }
            let ghost base = tp.segments@;
            let mut i: usize = 0;
            while i < tp.segments.len()
                invariant
                    i <= tp.segments.len(),
                    tp.segments@.len() == base.len(),
                    start == *old(ty),
                    start is Path,
                    tp.qualified == start->Path_0.qualified,
                    rewrite == (!start->Path_0.qualified && orig.len() == 1 && orig[0].ident@ == name@),
                    start->Path_0.segments@ == orig,
                    rewrite ==> base.len() == prefix.len() + 1 && base[prefix.len() as int].args == orig[0].args
                        && orig.len() == 1 && base[prefix.len() as int].ident@ == name@,
                    rewrite ==> forall|j: int|
                        0 <= j < prefix.len() ==> (#[trigger] base[j]).ident@ == prefix.deep_view()[j]
                            && base[j].args is Bare,
                    !rewrite ==> base == orig,
                    forall|j: int| i <= j < base.len() ==> tp.segments@[j] == base[j],
                    forall|j: int|
                        0 <= j < i ==> (#[trigger] tp.segments@[j]).ident@ == base[j].ident@ && args_requalified(
                            base[j].args,
                            tp.segments@[j].args,
                            name@,
                            prefix.deep_view(),
                        ),
                decreases tp.segments.len() - i,
            {
                if matches!(tp.segments[i].args, PathArgs::AngleBracketed(_)) {
                    proof {
                        assert(decreases_to!(start => start->Path_0));
                        assert(decreases_to!(start->Path_0 => start->Path_0.segments));
                        assert(decreases_to!(start->Path_0.segments => start->Path_0.segments@));
                        if rewrite {
                            assert(i == prefix.len());
                            assert(decreases_to!(start->Path_0.segments@ => orig[0]));
                            assert(decreases_to!(orig[0] => orig[0].args));
                        } else {
                            assert(decreases_to!(start->Path_0.segments@ => orig[i as int]));
                            assert(decreases_to!(orig[i as int] => orig[i as int].args));
                        }
                    }
                    qualify_args(&mut tp.segments[i].args, name, prefix);
                }
                proof {
                    if !(base[i as int].args is AngleBracketed) {
                        assert(args_requalified(base[i as int].args, tp.segments@[i as int].args, name@, prefix.deep_view()));
                    }
                }
                i = i + 1;
            }
            proof {
                if !rewrite {
                    lemma_segs_pointwise(orig, tp.segments@, name@, prefix.deep_view());
                    assert(segs_requalified(orig, tp.segments@, name@, prefix.deep_view()));
                } else {
                    let us = tp.segments@;
                    assert(us.len() == prefix.len() + 1);
                    assert forall|j: int| 0 <= j < prefix.len() implies (#[trigger] us[j]).ident@ == prefix.deep_view()[j] && us[j].args is Bare by {
                        assert(args_requalified(base[j].args, us[j].args, name@, prefix.deep_view()));
                    }
                    assert(args_requalified(orig[0].args, us[prefix.len() as int].args, name@, prefix.deep_view()));
                }
                assert(requalified(start, TypeAst::Path(*tp), name@, prefix.deep_view()));
            }
        },
        _ => {},
    }
}

/// `u` is `t` requalified for each of `names` in turn.
pub open spec fn requalified_by(t: TypeAst, u: TypeAst, names: Seq<Seq<char>>, prefix: Seq<Seq<char>>) -> bool
    decreases names.len(),
{
    if names.len() == 0 {
        u == t
    } else {
        exists|m: TypeAst|
            requalified_by(t, m, names.drop_last(), prefix) && #[trigger] requalified(m, u, names.last(), prefix)
    }
}

/// `g` is the function `f` with its return type and each parameter type
/// requalified for `names`; everything else, the type strings included, is
/// as it was.
pub open spec fn fn_requalified(f: ApiFn, g: ApiFn, names: Seq<Seq<char>>, prefix: Seq<Seq<char>>) -> bool {
    &&& g.name == f.name
    &&& g.is_async == f.is_async
    &&& g.doc == f.doc
    &&& g.return_type == f.return_type
    &&& g.first_param_is_store == f.first_param_is_store
    &&& g.is_stateless == f.is_stateless
    &&& g.force_method == f.force_method
    &&& g.command_override == f.command_override
    &&& g.surface == f.surface
    &&& g.store_accessor == f.store_accessor
    &&& requalified_by(f.return_type_ast, g.return_type_ast, names, prefix)
    &&& g.params@.len() == f.params@.len()
    &&& forall|k: int|
        0 <= k < f.params@.len() ==> (#[trigger] g.params@[k]).name == f.params@[k].name && g.params@[k].ty
            == f.params@[k].ty && requalified_by(f.params@[k].ty_ast, g.params@[k].ty_ast, names, prefix)
}

/// Requalify a type for each of `names` in turn.
fn qualify_type_all(ty: &mut TypeAst, names: &Vec<String>, prefix: &Vec<String>)
    ensures
        requalified_by(*old(ty), *final(ty), names.deep_view(), prefix.deep_view()),
{
    let ghost start = *ty;
    let mut k: usize = 0;
    while k < names.len()
        invariant
            k <= names.len(),
            requalified_by(start, *ty, names.deep_view().subrange(0, k as int), prefix.deep_view()),
        decreases names.len() - k,
    {
        let ghost mid = *ty;
        qualify_type(ty, names[k].as_str(), prefix);
        proof {
            let s = names.deep_view().subrange(0, k + 1);
            assert(s.drop_last() =~= names.deep_view().subrange(0, k as int));
            assert(s.last() == names.deep_view()[k as int]);
            assert(requalified(mid, *ty, s.last(), prefix.deep_view()));
        }
        k = k + 1;
    }
    assert(names.deep_view().subrange(0, k as int) =~= names.deep_view());
}

/// Requalify a function's return type and parameter types for `names`.
fn qualify_fn(f: &mut ApiFn, names: &Vec<String>, prefix: &Vec<String>)
    ensures
        fn_requalified(*old(f), *final(f), names.deep_view(), prefix.deep_view()),
{
    let ghost start = *f;
    qualify_type_all(&mut f.return_type_ast, names, prefix);
    let mut k: usize = 0;
    while k < f.params.len()
        invariant
            k <= f.params.len(),
            f.params@.len() == start.params@.len(),
            f.name == start.name,
            f.is_async == start.is_async,
            f.doc == start.doc,
            f.return_type == start.return_type,
            f.first_param_is_store == start.first_param_is_store,
            f.is_stateless == start.is_stateless,
            f.force_method == start.force_method,
            f.command_override == start.command_override,
            f.surface == start.surface,
            f.store_accessor == start.store_accessor,
            requalified_by(start.return_type_ast, f.return_type_ast, names.deep_view(), prefix.deep_view()),
            forall|j: int| k <= j < f.params@.len() ==> f.params@[j] == start.params@[j],
            forall|j: int|
                0 <= j < k ==> (#[trigger] f.params@[j]).name == start.params@[j].name && f.params@[j].ty
                    == start.params@[j].ty && requalified_by(
                    start.params@[j].ty_ast,
                    f.params@[j].ty_ast,
                    names.deep_view(),
                    prefix.deep_view(),
                ),
        decreases f.params.len() - k,
    {
        qualify_type_all(&mut f.params[k].ty_ast, names, prefix);
        k = k + 1;
    }
}

/// `m2` is the module `m` with each function requalified for its names in
/// `qs`, with the types path of its surface.
pub open spec fn module_requalified(
    m: ApiModule,
    m2: ApiModule,
    qs: spec_fn(ApiFn) -> Seq<Seq<char>>,
    surfaces: Seq<ApiSurface>,
) -> bool {
    &&& m2.name == m.name
    &&& m2.events == m.events
    &&& m2.is_singleton == m.is_singleton
    &&& m2.functions@.len() == m.functions@.len()
    &&& forall|j: int|
        0 <= j < m.functions@.len() ==> fn_requalified(
            #[trigger] m.functions@[j],
            m2.functions@[j],
            qs(m.functions@[j]),
            path_pieces(surfaces[m.functions@[j].surface as int].types_import_path@),
        )
}

/// Each function of each module is one of the functions of all modules.
proof fn lemma_fn_in_all(ms: Seq<ApiModule>, i: int, j: int)
    requires
        0 <= i < ms.len(),
        0 <= j < ms[i].functions@.len(),
    ensures
        exists|k: int| 0 <= k < all_fns(ms).len() && #[trigger] all_fns(ms)[k] == ms[i].functions@[j],
    decreases ms.len(),
{
    let pre = ms.drop_last();
    if i == ms.len() - 1 {
        let k = all_fns(pre).len() + j;
        assert(all_fns(ms)[k] == ms[i].functions@[j]);
    } else {
        assert(pre[i] == ms[i]);
        lemma_fn_in_all(pre, i, j);
        let k = choose|k: int| 0 <= k < all_fns(pre).len() && #[trigger] all_fns(pre)[k] == pre[i].functions@[j];
        assert(all_fns(ms)[k] == all_fns(pre)[k]);
    }
}

/// Rewrite the type names that several surfaces import from different
/// paths: the surface with the lowest index keeps the bare name, and every
/// function of a surface importing types from another path spells the name
/// out as that surface's types path followed by the name, in its return
/// type and its parameter types.
///
/// The type strings of the rewritten signatures are left as scanned: the
/// syntax trees carry the qualification, and the strings are rendered from
/// tokens that the trees do not keep.
pub fn qualify_shared_types(modules: &mut Vec<ApiModule>, surfaces: &Vec<ApiSurface>)
    requires
        surfaces_cover(all_fns(old(modules)@), surfaces@),
    ensures
        final(modules)@.len() == old(modules)@.len(),
        forall|i: int|
            0 <= i < old(modules)@.len() ==> module_requalified(
                #[trigger] old(modules)@[i],
                final(modules)@[i],
                |f: ApiFn| qualified_names(all_fns(old(modules)@), surfaces@, f),
                surfaces@,
            ),
{
    let ghost start = modules@;
    let ghost qs = |f: ApiFn| qualified_names(all_fns(start), surfaces@, f);
    let q = shared_type_qualifications(modules, surfaces);
    let mut i: usize = 0;
    while i < modules.len()
        invariant
            i <= modules.len(),
            modules@.len() == start.len(),
            q@.len() == start.len(),
            surfaces_cover(all_fns(start), surfaces@),
            qs == (|f: ApiFn| qualified_names(all_fns(start), surfaces@, f)),
            forall|i2: int|
                0 <= i2 < start.len() ==> (#[trigger] q@[i2])@.len() == start[i2].functions@.len() && forall|j: int|
                    0 <= j < start[i2].functions@.len() ==> (#[trigger] q@[i2]@[j]).deep_view() == qualified_names(
                        all_fns(start),
                        surfaces@,
                        start[i2].functions@[j],
                    ),
            forall|i2: int| i <= i2 < start.len() ==> modules@[i2] == start[i2],
            forall|i2: int| 0 <= i2 < i ==> module_requalified(#[trigger] start[i2], modules@[i2], qs, surfaces@),
        decreases modules.len() - i,
    {
        let ghost m0 = start[i as int];
        let mut j: usize = 0;
        while j < modules[i].functions.len()
            invariant
                i < modules.len(),
                j <= modules@[i as int].functions@.len(),
                modules@.len() == start.len(),
                q@.len() == start.len(),
                m0 == start[i as int],
                modules@[i as int].functions@.len() == m0.functions@.len(),
                modules@[i as int].name == m0.name,
                modules@[i as int].events == m0.events,
                modules@[i as int].is_singleton == m0.is_singleton,
                (q@[i as int])@.len() == m0.functions@.len(),
                forall|j2: int|
                    0 <= j2 < m0.functions@.len() ==> (#[trigger] q@[i as int]@[j2]).deep_view() == qs(
                        m0.functions@[j2],
                    ),
                surfaces_cover(all_fns(start), surfaces@),
                forall|i2: int| i < i2 < start.len() ==> modules@[i2] == start[i2],
                forall|i2: int| 0 <= i2 < i ==> module_requalified(#[trigger] start[i2], modules@[i2], qs, surfaces@),
                qs == (|f: ApiFn| qualified_names(all_fns(start), surfaces@, f)),
                forall|j2: int| j <= j2 < m0.functions@.len() ==> modules@[i as int].functions@[j2] == m0.functions@[j2],
                forall|j2: int|
                    0 <= j2 < j ==> fn_requalified(
                        #[trigger] m0.functions@[j2],
                        modules@[i as int].functions@[j2],
                        qs(m0.functions@[j2]),
                        path_pieces(surfaces@[m0.functions@[j2].surface as int].types_import_path@),
                    ),
            decreases m0.functions@.len() - j,
        {
            let s = modules[i].functions[j].surface;
            proof {
                lemma_fn_in_all(start, i as int, j as int);
            }
            let prefix = types_path_pieces(surfaces[s].types_import_path.as_str());
            qualify_fn(&mut modules[i].functions[j], &q[i][j], &prefix);
            j = j + 1;
        }
        i = i + 1;
    }
}

} // verus!
