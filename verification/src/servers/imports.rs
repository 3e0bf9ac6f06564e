//! The simple type names a signature needs imported from the types module.

use vstd::prelude::*;

use crate::servers::parse::{GenericArg, PathArgs, PathSegment, TraitBound, TypeAst};
use crate::servers::types::{is_prelude_scalar, is_prelude_scalar_spec, vec_contains_str};
use crate::text::str_eq;

verus! {

/// Generic heads that are never imported themselves; their arguments are.
pub open spec fn is_known_container(name: Seq<char>) -> bool {
    ||| name == "Option"@
    ||| name == "Vec"@
    ||| name == "Box"@
    ||| name == "Arc"@
    ||| name == "Rc"@
    ||| name == "Cow"@
    ||| name == "Result"@
    ||| name == "HashMap"@
    ||| name == "BTreeMap"@
    ||| name == "HashSet"@
    ||| name == "BTreeSet"@
    ||| name == "IndexMap"@
    ||| name == "IndexSet"@
}

/// The candidate import names of a type, in the order the walk meets them
/// (with repeats).
pub open spec fn ty_names(ty: TypeAst) -> Seq<Seq<char>>
    decreases ty,
{
    match ty {
        TypeAst::Reference(b) => ty_names(*b),
        TypeAst::Tuple(elems) => tys_names(elems@),
        TypeAst::Path(tp) => {
            let n = tp.segments@.len();
            if tp.qualified || n > 1 {
                if n > 0 {
                    args_names(tp.segments@[n - 1].args)
                } else {
                    Seq::empty()
                }
            } else if n == 0 {
                Seq::empty()
            } else {
                let seg = tp.segments@[0];
                let name = seg.ident@;
                if is_known_container(name) || !(seg.args is Bare) {
                    args_names(seg.args)
                } else if is_prelude_scalar_spec(name) {
                    Seq::empty()
                } else {
                    seq![name]
                }
            }
        },
        TypeAst::TraitObject(bounds) => bounds_names(bounds@),
        TypeAst::ImplTrait(bounds) => bounds_names(bounds@),
        TypeAst::Group(b) => ty_names(*b),
        TypeAst::Paren(b) => ty_names(*b),
        TypeAst::Array(b) => ty_names(*b),
        TypeAst::Slice(b) => ty_names(*b),
        TypeAst::Ptr(b) => ty_names(*b),
        TypeAst::Other => Seq::empty(),
    }
}

/// The candidate import names of a list of types, in order.
pub open spec fn tys_names(tys: Seq<TypeAst>) -> Seq<Seq<char>>
    decreases tys,
{
    if tys.len() == 0 {
        Seq::empty()
    } else {
        ty_names(tys[0]) + tys_names(tys.subrange(1, tys.len() as int))
    }
}

/// The candidate import names of a segment's arguments.
pub open spec fn args_names(args: PathArgs) -> Seq<Seq<char>>
    decreases args,
{
    match args {
        PathArgs::AngleBracketed(v) => gargs_names(v@),
        _ => Seq::empty(),
    }
}

/// The candidate import names of a list of generic arguments.
pub open spec fn gargs_names(gs: Seq<GenericArg>) -> Seq<Seq<char>>
    decreases gs,
{
    if gs.len() == 0 {
        Seq::empty()
    } else {
        let head = match gs[0] {
            GenericArg::Type(t) => ty_names(t),
            GenericArg::Other => Seq::empty(),
        };
        head + gargs_names(gs.subrange(1, gs.len() as int))
    }
}

/// The candidate import names of `dyn`/`impl` bounds: the arguments of the
/// last segment of each trait bound.
pub open spec fn bounds_names(bs: Seq<TraitBound>) -> Seq<Seq<char>>
    decreases bs,
{
    if bs.len() == 0 {
        Seq::empty()
    } else {
        let head = match bs[0] {
            TraitBound::Trait(segs) => if segs@.len() > 0 {
                args_names(segs@[segs@.len() - 1].args)
            } else {
                Seq::empty()
            },
            TraitBound::Other => Seq::empty(),
        };
        head + bounds_names(bs.subrange(1, bs.len() as int))
    }
}

/// `imports` with each of `names` appended, in order, unless already there.
pub open spec fn add_names(names: Seq<Seq<char>>, imports: Seq<Seq<char>>) -> Seq<Seq<char>>
    decreases names.len(),
{
    if names.len() == 0 {
        imports
    } else {
        let next = if imports.contains(names[0]) {
            imports
        } else {
            imports.push(names[0])
        };
        add_names(names.subrange(1, names.len() as int), next)
    }
}

/// Adding two runs of names is adding their concatenation.
pub proof fn lemma_add_names_concat(a: Seq<Seq<char>>, b: Seq<Seq<char>>, imports: Seq<Seq<char>>)
    ensures
        add_names(a + b, imports) == add_names(b, add_names(a, imports)),
    decreases a.len(),
{
    if a.len() == 0 {
        assert(a + b =~= b);
    } else {
        let next = if imports.contains(a[0]) {
            imports
        } else {
            imports.push(a[0])
        };
        assert((a + b).subrange(1, (a + b).len() as int) =~= a.subrange(1, a.len() as int) + b);
        assert((a + b)[0] == a[0]);
        lemma_add_names_concat(a.subrange(1, a.len() as int), b, next);
    }
}

/// Adding names never drops an import already present, and keeps the list
/// free of repeats.
pub proof fn lemma_add_names_keeps(names: Seq<Seq<char>>, imports: Seq<Seq<char>>)
    ensures
        imports.is_prefix_of(add_names(names, imports)),
        imports.no_duplicates() ==> add_names(names, imports).no_duplicates(),
        forall|i: int| 0 <= i < names.len() ==> add_names(names, imports).contains(#[trigger] names[i]),
    decreases names.len(),
{
    if names.len() > 0 {
        let next = if imports.contains(names[0]) {
            imports
        } else {
            imports.push(names[0])
        };
        let rest = names.subrange(1, names.len() as int);
        lemma_add_names_keeps(rest, next);
        if !imports.contains(names[0]) {
            assert(next[next.len() - 1] == names[0]);
        }
        assert(next.contains(names[0]));
        let r = add_names(names, imports);
        assert(r == add_names(rest, next));
        assert(next.is_prefix_of(r));
        let k = next.index_of(names[0]);
        assert(r[k] == names[0]);
        assert forall|i: int| 0 <= i < names.len() implies r.contains(#[trigger] names[i]) by {
            if i > 0 {
                assert(rest[i - 1] == names[i]);
            }
        }
        assert(imports.is_prefix_of(r)) by {
            assert forall|i: int| 0 <= i < imports.len() implies imports[i] == r[i] by {
                assert(next[i] == imports[i]);
            }
        }
    }
}

fn add_args_imports(args: &PathArgs, imports: &mut Vec<String>)
    ensures
        final(imports).deep_view() == add_names(args_names(*args), old(imports).deep_view()),
    decreases *args, 0nat,
{
    match args {
        PathArgs::AngleBracketed(v) => {
            let ghost start = imports.deep_view();
            let mut i: usize = 0;
            assert(v@.subrange(0, v@.len() as int) =~= v@);
            while i < v.len()
                invariant
                    i <= v.len(),
                    *args is AngleBracketed,
                    args->AngleBracketed_0 == *v,
                    add_names(gargs_names(v@), start) == add_names(
                        gargs_names(v@.subrange(i as int, v@.len() as int)),
                        imports.deep_view(),
                    ),
                decreases v.len() - i,
            {
                let ghost t = v@.subrange(i as int, v@.len() as int);
                assert(t[0] == v@[i as int]);
                assert(t.subrange(1, t.len() as int) =~= v@.subrange(i + 1, v@.len() as int));
                let ghost head = match t[0] {
                    GenericArg::Type(ty) => ty_names(ty),
                    GenericArg::Other => Seq::empty(),
                };
                proof {
                    lemma_add_names_concat(head, gargs_names(t.subrange(1, t.len() as int)), imports.deep_view());
                }
                match &v[i] {
                    GenericArg::Type(t) => {
                        proof {
                            assert(decreases_to!(*args => args->AngleBracketed_0));
                            assert(decreases_to!(args->AngleBracketed_0 => args->AngleBracketed_0@));
                            assert(decreases_to!(args->AngleBracketed_0@ => args->AngleBracketed_0@[i as int]));
                            assert(decreases_to!(v@[i as int] => v@[i as int]->Type_0));
                        }
                        collect_type_import(t, imports);
                    },
                    GenericArg::Other => {},
                }
                i = i + 1;
            }
            assert(v@.subrange(v@.len() as int, v@.len() as int) =~= Seq::<GenericArg>::empty());
        },
        _ => {},
    }
}

fn add_last_segment_imports(segs: &Vec<PathSegment>, imports: &mut Vec<String>)
    ensures
        final(imports).deep_view() == (if segs@.len() > 0 {
            add_names(args_names(segs@[segs@.len() - 1].args), old(imports).deep_view())
        } else {
            old(imports).deep_view()
        }),
    decreases segs@, 1nat,
{
    if segs.len() > 0 {
        let last = &segs[segs.len() - 1];
        add_args_imports(&last.args, imports);
    }
}

/// Collect the simple type names that need importing from the types
/// module, walking the type recursively.
///
/// Skips prelude and primitive types, qualified paths (only the last
/// segment's arguments are walked), the heads of known containers (their
/// arguments are walked), and the heads of other generic types (their
/// arguments are walked too); `dyn`/`impl` types contribute the arguments
/// of their trait bounds. A name already in `imports` is not added again.
pub fn collect_type_import(ty: &TypeAst, imports: &mut Vec<String>)
    ensures
        final(imports).deep_view() == add_names(ty_names(*ty), old(imports).deep_view()),
    decreases *ty, 2nat,
{
    match ty {
        TypeAst::Reference(b) => collect_type_import(&**b, imports),
        TypeAst::Group(b) => collect_type_import(&**b, imports),
        TypeAst::Paren(b) => collect_type_import(&**b, imports),
        TypeAst::Array(b) => collect_type_import(&**b, imports),
        TypeAst::Slice(b) => collect_type_import(&**b, imports),
        TypeAst::Ptr(b) => collect_type_import(&**b, imports),
        TypeAst::Tuple(elems) => {
            let ghost start = imports.deep_view();
            let mut i: usize = 0;
            assert(elems@.subrange(0, elems@.len() as int) =~= elems@);
            while i < elems.len()
                invariant
                    i <= elems.len(),
                    *ty is Tuple,
                    ty->Tuple_0 == *elems,
                    add_names(tys_names(elems@), start) == add_names(
                        tys_names(elems@.subrange(i as int, elems@.len() as int)),
                        imports.deep_view(),
                    ),
                decreases elems.len() - i,
            {
                let ghost t = elems@.subrange(i as int, elems@.len() as int);
                assert(t[0] == elems@[i as int]);
                assert(t.subrange(1, t.len() as int) =~= elems@.subrange(i + 1, elems@.len() as int));
                proof {
                    lemma_add_names_concat(
                        ty_names(t[0]),
                        tys_names(t.subrange(1, t.len() as int)),
                        imports.deep_view(),
                    );
                }
                proof {
                    assert(decreases_to!(*ty => ty->Tuple_0));
                    assert(decreases_to!(ty->Tuple_0 => ty->Tuple_0@));
                    assert(decreases_to!(ty->Tuple_0@ => ty->Tuple_0@[i as int]));
                }
                collect_type_import(&elems[i], imports);
                i = i + 1;
            }
            assert(elems@.subrange(elems@.len() as int, elems@.len() as int) =~= Seq::<TypeAst>::empty());
        },
        TypeAst::Path(tp) => {
            let n = tp.segments.len();
            if tp.qualified || n > 1 {
                add_last_segment_imports(&tp.segments, imports);
                return;
            }
            if n == 0 {
                return;
            }
            let seg = &tp.segments[0];
            let bare = match &seg.args {
                PathArgs::Bare => true,
                _ => false,
            };
            if known_container(seg.ident.as_str()) || !bare {
                add_args_imports(&seg.args, imports);
                return;
            }
            if is_prelude_scalar(seg.ident.as_str()) {
                return;
            }
            if !vec_contains_str(imports, seg.ident.as_str()) {
                let ghost before = imports.deep_view();
                imports.push(seg.ident.clone());
                assert(imports.deep_view() =~= before.push(seg.ident@));
            }
            proof {
                let ns = seq![seg.ident@];
                assert(ns.subrange(1, 1) =~= Seq::<Seq<char>>::empty());
                assert(ty_names(*ty) == ns);
                let next = if old(imports).deep_view().contains(ns[0]) {
                    old(imports).deep_view()
                } else {
                    old(imports).deep_view().push(ns[0])
                };
                assert(add_names(ns.subrange(1, 1), next) == next);
            }
        },
        TypeAst::TraitObject(bounds) => add_bounds_imports(bounds, imports),
        TypeAst::ImplTrait(bounds) => add_bounds_imports(bounds, imports),
        TypeAst::Other => {},
    }
}

fn add_bounds_imports(bounds: &Vec<TraitBound>, imports: &mut Vec<String>)
    ensures
        final(imports).deep_view() == add_names(bounds_names(bounds@), old(imports).deep_view()),
    decreases bounds@, 3nat,
{
    let ghost start = imports.deep_view();
    let mut i: usize = 0;
    assert(bounds@.subrange(0, bounds@.len() as int) =~= bounds@);
    while i < bounds.len()
        invariant
            i <= bounds.len(),
            add_names(bounds_names(bounds@), start) == add_names(
                bounds_names(bounds@.subrange(i as int, bounds@.len() as int)),
                imports.deep_view(),
            ),
        decreases bounds.len() - i,
    {
        let ghost t = bounds@.subrange(i as int, bounds@.len() as int);
        assert(t[0] == bounds@[i as int]);
        assert(t.subrange(1, t.len() as int) =~= bounds@.subrange(i + 1, bounds@.len() as int));
        let ghost head = match t[0] {
            TraitBound::Trait(segs) => if segs@.len() > 0 {
                args_names(segs@[segs@.len() - 1].args)
            } else {
                Seq::empty()
            },
            TraitBound::Other => Seq::empty(),
        };
        proof {
            lemma_add_names_concat(head, bounds_names(t.subrange(1, t.len() as int)), imports.deep_view());
        }
        match &bounds[i] {
            TraitBound::Trait(segs) => {
                add_last_segment_imports(segs, imports);
            },
            TraitBound::Other => {},
        }
        i = i + 1;
    }
    assert(bounds@.subrange(bounds@.len() as int, bounds@.len() as int) =~= Seq::<TraitBound>::empty());
}

/// Whether `name` is a known container head.
pub fn known_container(name: &str) -> (b: bool)
    ensures
        b == is_known_container(name@),
{
    str_eq(name, "Option") || str_eq(name, "Vec") || str_eq(name, "Box") || str_eq(name, "Arc") || str_eq(
        name,
        "Rc",
    ) || str_eq(name, "Cow") || str_eq(name, "Result") || str_eq(name, "HashMap") || str_eq(name, "BTreeMap")
        || str_eq(name, "HashSet") || str_eq(name, "BTreeSet") || str_eq(name, "IndexMap") || str_eq(
        name,
        "IndexSet",
    )
}

} // verus!
