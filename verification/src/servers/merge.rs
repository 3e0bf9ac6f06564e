//! Folding the modules of several API surfaces into one module list, and
//! the per-surface bookkeeping done after scanning.

use vstd::prelude::*;

use crate::servers::config::ApiSurface;
use crate::servers::types::NamingConfig;
use crate::servers::parse::{crud_names, ApiFn, ApiModule, EventFn};
use crate::servers::scan::{ModuleParseResult, SkipRecord};
use crate::text::{owned, str_eq};

verus! {

/// A module as the merge sees it.
pub struct MView {
    /// Module name.
    pub name: String,
    /// Its functions, in order.
    pub functions: Seq<ApiFn>,
    /// Its events, in order.
    pub events: Seq<EventFn>,
    /// Whether it is a singleton.
    pub is_singleton: bool,
}

/// The view of a module.
pub open spec fn mview(m: ApiModule) -> MView {
    MView { name: m.name, functions: m.functions@, events: m.events@, is_singleton: m.is_singleton }
}

/// Why a merge fails.
pub enum MergeError {
    /// A function name comes from two surfaces.
    FnClash { module: String, name: String, prior: int, surface: int },
    /// An event name comes from two surfaces.
    EventClash { module: String, name: String, prior: int, surface: int },
}

/// `o` moved one position on.
pub open spec fn shift(o: Option<int>) -> Option<int> {
    match o {
        Some(i) => Some(i + 1),
        None => None,
    }
}

/// The first module of `s` named `name`.
pub open spec fn find_module(s: Seq<MView>, name: String) -> Option<int>
    decreases s.len(),
{
    if s.len() == 0 {
        None
    } else if s[0].name@ == name@ {
        Some(0)
    } else {
        shift(find_module(s.subrange(1, s.len() as int), name))
    }
}

/// The first function of `s` named `name`.
pub open spec fn find_fn(s: Seq<ApiFn>, name: String) -> Option<int>
    decreases s.len(),
{
    if s.len() == 0 {
        None
    } else if s[0].name@ == name@ {
        Some(0)
    } else {
        shift(find_fn(s.subrange(1, s.len() as int), name))
    }
}

/// The first event of `s` named `name`.
pub open spec fn find_event(s: Seq<EventFn>, name: String) -> Option<int>
    decreases s.len(),
{
    if s.len() == 0 {
        None
    } else if s[0].name@ == name@ {
        Some(0)
    } else {
        shift(find_event(s.subrange(1, s.len() as int), name))
    }
}

/// `acc` with `incoming` appended one by one, failing on the first name
/// already present.
pub open spec fn add_fns(module: String, acc: Seq<ApiFn>, incoming: Seq<ApiFn>, s: int) -> Result<
    Seq<ApiFn>,
    MergeError,
>
    decreases incoming.len(),
{
    if incoming.len() == 0 {
        Ok(acc)
    } else {
        match find_fn(acc, incoming[0].name) {
            Some(i) => Err(
                MergeError::FnClash { module, name: incoming[0].name, prior: acc[i].surface as int, surface: s },
            ),
            None => add_fns(module, acc.push(incoming[0]), incoming.subrange(1, incoming.len() as int), s),
        }
    }
}

/// `acc` with `incoming` appended one by one, failing on the first name
/// already present.
pub open spec fn add_events(module: String, acc: Seq<EventFn>, incoming: Seq<EventFn>, s: int) -> Result<
    Seq<EventFn>,
    MergeError,
>
    decreases incoming.len(),
{
    if incoming.len() == 0 {
        Ok(acc)
    } else {
        match find_event(acc, incoming[0].name) {
            Some(i) => Err(
                MergeError::EventClash { module, name: incoming[0].name, prior: acc[i].surface as int, surface: s },
            ),
            None => add_events(module, acc.push(incoming[0]), incoming.subrange(1, incoming.len() as int), s),
        }
    }
}

/// `acc` with one module of surface `s` folded in: appended when new,
/// else its functions then its events added to the module of that name.
pub open spec fn merge_module(acc: Seq<MView>, m: MView, s: int) -> Result<Seq<MView>, MergeError> {
    match find_module(acc, m.name) {
        None => Ok(acc.push(m)),
        Some(i) => match add_fns(m.name, acc[i].functions, m.functions, s) {
            Err(e) => Err(e),
            Ok(fs) => match add_events(m.name, acc[i].events, m.events, s) {
                Err(e) => Err(e),
                Ok(es) => Ok(acc.update(i, MView { functions: fs, events: es, ..acc[i] })),
            },
        },
    }
}

/// `acc` with the modules of surface `s` folded in, in order.
pub open spec fn merge_list(acc: Seq<MView>, ms: Seq<MView>, s: int) -> Result<Seq<MView>, MergeError>
    decreases ms.len(),
{
    if ms.len() == 0 {
        Ok(acc)
    } else {
        match merge_module(acc, ms[0], s) {
            Err(e) => Err(e),
            Ok(a) => merge_list(a, ms.subrange(1, ms.len() as int), s),
        }
    }
}

/// `acc` with every surface's modules folded in, surfaces numbered from
/// `s`.
pub open spec fn merge_all(acc: Seq<MView>, per: Seq<Seq<MView>>, s: int) -> Result<Seq<MView>, MergeError>
    decreases per.len(),
{
    if per.len() == 0 {
        Ok(acc)
    } else {
        match merge_list(acc, per[0], s) {
            Err(e) => Err(e),
            Ok(a) => merge_all(a, per.subrange(1, per.len() as int), s + 1),
        }
    }
}

/// The function is one of the CRUD five.
pub open spec fn is_crud_fn(f: ApiFn) -> bool {
    crud_names().contains(f.name@)
}

/// The first CRUD function.
pub open spec fn first_crud(s: Seq<ApiFn>) -> Option<int>
    decreases s.len(),
{
    if s.len() == 0 {
        None
    } else if is_crud_fn(s[0]) {
        Some(0)
    } else {
        shift(first_crud(s.subrange(1, s.len() as int)))
    }
}

/// The first CRUD function not from surface `surface`.
pub open spec fn first_crud_off(s: Seq<ApiFn>, surface: usize) -> Option<int>
    decreases s.len(),
{
    if s.len() == 0 {
        None
    } else if is_crud_fn(s[0]) && s[0].surface != surface {
        Some(0)
    } else {
        shift(first_crud_off(s.subrange(1, s.len() as int), surface))
    }
}

/// The CRUD functions of a module, as the first one and the first one from
/// another surface, when they span two surfaces.
pub open spec fn split_crud(fs: Seq<ApiFn>) -> Option<(int, int)> {
    match first_crud(fs) {
        None => None,
        Some(i) => match first_crud_off(fs, fs[i].surface) {
            None => None,
            Some(j) => Some((i, j)),
        },
    }
}

/// The first module whose CRUD functions span two surfaces.
pub open spec fn first_crud_split(s: Seq<MView>) -> Option<int>
    decreases s.len(),
{
    if s.len() == 0 {
        None
    } else if split_crud(s[0].functions) is Some {
        Some(0)
    } else {
        shift(first_crud_split(s.subrange(1, s.len() as int)))
    }
}

/// The directory of surface `i`.
pub open spec fn dir_of(surfaces: Seq<ApiSurface>, i: int) -> Seq<char> {
    surfaces[i].api_dir@
}

/// The message of a name defined by two surfaces.
pub open spec fn clash_spec(
    kind: Seq<char>,
    module: Seq<char>,
    name: Seq<char>,
    prior_dir: Seq<char>,
    dir: Seq<char>,
    tail: Seq<char>,
) -> Seq<char> {
    "ontogen: "@ + kind + " `"@ + module + "::"@ + name + "` is defined by both API surfaces `"@ + prior_dir
        + "` and `"@ + dir + "`"@ + tail
}

/// The message of a merge error.
pub open spec fn merge_error_text(e: MergeError, surfaces: Seq<ApiSurface>) -> Seq<char> {
    match e {
        MergeError::FnClash { module, name, prior, surface } => clash_spec(
            "fn"@,
            module@,
            name@,
            dir_of(surfaces, prior),
            dir_of(surfaces, surface),
            "; a function name may come from one surface only"@,
        ),
        MergeError::EventClash { module, name, prior, surface } => clash_spec(
            "event"@,
            module@,
            name@,
            dir_of(surfaces, prior),
            dir_of(surfaces, surface),
            ""@,
        ),
    }
}

/// The message of a module whose CRUD functions span two surfaces.
pub open spec fn crud_split_text(m: MView, surfaces: Seq<ApiSurface>) -> Seq<char> {
    let (i, j) = split_crud(m.functions)->0;
    let first = m.functions[i];
    let other = m.functions[j];
    "ontogen: the CRUD functions of module `"@ + m.name@ + "` must come from one API surface, but `"@
        + first.name@ + "` is in `"@ + dir_of(surfaces, first.surface as int) + "` and `"@ + other.name@
        + "` is in `"@ + dir_of(surfaces, other.surface as int) + "`"@
}

/// The outcome of merging per-surface module lists.
pub open spec fn merge_outcome(per: Seq<Seq<MView>>, surfaces: Seq<ApiSurface>) -> Result<Seq<MView>, Seq<char>> {
    match merge_all(Seq::empty(), per, 0) {
        Err(e) => Err(merge_error_text(e, surfaces)),
        Ok(ms) => match first_crud_split(ms) {
            Some(i) => Err(crud_split_text(ms[i], surfaces)),
            None => Ok(ms),
        },
    }
}

/// Every surface index the merge may name is a surface.
pub open spec fn surfaces_cover(per: Seq<Vec<ApiModule>>, surfaces: Seq<ApiSurface>) -> bool {
    &&& per.len() <= surfaces.len()
    &&& forall|k: int, j: int, f: int|
        0 <= k < per.len() && 0 <= j < per[k]@.len() && 0 <= f < per[k]@[j].functions@.len() ==> (
        #[trigger] per[k]@[j].functions@[f]).surface < surfaces.len()
    &&& forall|k: int, j: int, e: int|
        0 <= k < per.len() && 0 <= j < per[k]@.len() && 0 <= e < per[k]@[j].events@.len() ==> (
        #[trigger] per[k]@[j].events@[e]).surface < surfaces.len()
}

/// The module lists as the merge sees them.
pub open spec fn per_views(per: Seq<Vec<ApiModule>>) -> Seq<Seq<MView>> {
    Seq::new(per.len(), |k: int| Seq::new(per[k]@.len(), |j: int| mview(per[k]@[j])))
}

/// The views of a list of modules.
pub open spec fn views(ms: Seq<ApiModule>) -> Seq<MView> {
    Seq::new(ms.len(), |i: int| mview(ms[i]))
}

/// An index as an integer.
pub open spec fn opt_int(o: Option<usize>) -> Option<int> {
    match o {
        Some(i) => Some(i as int),
        None => None,
    }
}

/// The surfaces of a module's functions and events are all below `n`.
pub open spec fn module_surfaces_below(m: ApiModule, n: int) -> bool {
    &&& forall|f: int| 0 <= f < m.functions@.len() ==> (#[trigger] m.functions@[f]).surface < n
    &&& forall|e: int| 0 <= e < m.events@.len() ==> (#[trigger] m.events@[e]).surface < n
}

fn find_module_index(ms: &Vec<ApiModule>, name: &String) -> (r: Option<usize>)
    ensures
        r matches Some(i) ==> i < ms@.len(),
        opt_int(r) == find_module(views(ms@), *name),
{
    let ghost vs = views(ms@);
    let mut i: usize = 0;
    assert(vs.subrange(0, vs.len() as int) =~= vs);
    while i < ms.len()
        invariant
            i <= ms.len(),
            vs == views(ms@),
            find_module(vs, *name) == (match find_module(vs.subrange(i as int, vs.len() as int), *name) {
                Some(j) => Some(j + i),
                None => None,
            }),
        decreases ms.len() - i,
    {
        let ghost t = vs.subrange(i as int, vs.len() as int);
        assert(t[0] == vs[i as int]);
        assert(t.subrange(1, t.len() as int) =~= vs.subrange(i + 1, vs.len() as int));
        if str_eq(ms[i].name.as_str(), name.as_str()) {
            return Some(i);
        }
        i = i + 1;
    }
    None
}

fn find_fn_index(fs: &Vec<ApiFn>, name: &String) -> (r: Option<usize>)
    ensures
        r matches Some(i) ==> i < fs@.len(),
        opt_int(r) == find_fn(fs@, *name),
{
    let mut i: usize = 0;
    assert(fs@.subrange(0, fs@.len() as int) =~= fs@);
    while i < fs.len()
        invariant
            i <= fs.len(),
            find_fn(fs@, *name) == (match find_fn(fs@.subrange(i as int, fs@.len() as int), *name) {
                Some(j) => Some(j + i),
                None => None,
            }),
        decreases fs.len() - i,
    {
        let ghost t = fs@.subrange(i as int, fs@.len() as int);
        assert(t[0] == fs@[i as int]);
        assert(t.subrange(1, t.len() as int) =~= fs@.subrange(i + 1, fs@.len() as int));
        if str_eq(fs[i].name.as_str(), name.as_str()) {
            return Some(i);
        }
        i = i + 1;
    }
    None
}

fn find_event_index(es: &Vec<EventFn>, name: &String) -> (r: Option<usize>)
    ensures
        r matches Some(i) ==> i < es@.len(),
        opt_int(r) == find_event(es@, *name),
{
    let mut i: usize = 0;
    assert(es@.subrange(0, es@.len() as int) =~= es@);
    while i < es.len()
        invariant
            i <= es.len(),
            find_event(es@, *name) == (match find_event(es@.subrange(i as int, es@.len() as int), *name) {
                Some(j) => Some(j + i),
                None => None,
            }),
        decreases es.len() - i,
    {
        let ghost t = es@.subrange(i as int, es@.len() as int);
        assert(t[0] == es@[i as int]);
        assert(t.subrange(1, t.len() as int) =~= es@.subrange(i + 1, es@.len() as int));
        if str_eq(es[i].name.as_str(), name.as_str()) {
            return Some(i);
        }
        i = i + 1;
    }
    None
}

fn clash_text(kind: &str, module: &String, name: &String, prior_dir: &String, dir: &String, tail: &str) -> (r: String)
    ensures
        r@ == clash_spec(kind@, module@, name@, prior_dir@, dir@, tail@),
{
    let mut r = String::from_str("ontogen: ");
    r.append(kind);
    r.append(" `");
    r.append(module.as_str());
    r.append("::");
    r.append(name.as_str());
    r.append("` is defined by both API surfaces `");
    r.append(prior_dir.as_str());
    r.append("` and `");
    r.append(dir.as_str());
    r.append("`");
    r.append(tail);
    r
}

/// Fold one incoming module of surface `s` into the existing module of the
/// same name: its functions, then its events, each refused when its name is
/// already there.
fn merge_into(existing: &mut ApiModule, incoming: ApiModule, s: usize, surfaces: &Vec<ApiSurface>) -> (r: Result<
    (),
    String,
>)
    requires
        s < surfaces@.len(),
        module_surfaces_below(*old(existing), surfaces@.len() as int),
        module_surfaces_below(incoming, surfaces@.len() as int),
    ensures
        final(existing).name == old(existing).name,
        final(existing).is_singleton == old(existing).is_singleton,
        module_surfaces_below(*final(existing), surfaces@.len() as int),
        match add_fns(incoming.name, old(existing).functions@, incoming.functions@, s as int) {
            Err(e) => r matches Err(t) && t@ == merge_error_text(e, surfaces@),
            Ok(fs) => match add_events(incoming.name, old(existing).events@, incoming.events@, s as int) {
                Err(e) => r matches Err(t) && t@ == merge_error_text(e, surfaces@),
                Ok(es) => r is Ok && final(existing).functions@ == fs && final(existing).events@ == es,
            },
        },
{
    let name = incoming.name;
    let functions = incoming.functions;
    let events = incoming.events;
    let ghost fin = functions@;
    let ghost ein = events@;
    let ghost f0 = existing.functions@;
    let ghost e0 = existing.events@;
    assert(fin.len() == functions.len());
    assert(ein.len() == events.len());
    let mut fns = functions;
    let mut k: usize = 0;
    assert(fin.subrange(0, fin.len() as int) =~= fin);
    while fns.len() > 0
        invariant
            k <= fin.len(),
            fin.len() <= usize::MAX,
            fns@ == fin.subrange(k as int, fin.len() as int),
            s < surfaces@.len(),
            name == incoming.name,
            existing.name == old(existing).name,
            existing.is_singleton == old(existing).is_singleton,
            existing.events@ == e0,
            f0 == old(existing).functions@,
            e0 == old(existing).events@,
            fin == incoming.functions@,
            ein == incoming.events@,
            module_surfaces_below(*existing, surfaces@.len() as int),
            forall|f: int| 0 <= f < fin.len() ==> (#[trigger] fin[f]).surface < surfaces@.len(),
            add_fns(name, f0, fin, s as int) == add_fns(name, existing.functions@, fin.subrange(k as int, fin.len() as int), s as int),
        decreases fns.len(),
    {
        let ghost t = fin.subrange(k as int, fin.len() as int);
        assert(t[0] == fin[k as int]);
        assert(t.subrange(1, t.len() as int) =~= fin.subrange(k + 1, fin.len() as int));
        let f = fns.remove(0);
        match find_fn_index(&existing.functions, &f.name) {
            Some(pi) => {
                let prior = existing.functions[pi].surface;
                let e = clash_text(
                    "fn",
                    &name,
                    &f.name,
                    &surfaces[prior].api_dir,
                    &surfaces[s].api_dir,
                    "; a function name may come from one surface only",
                );
                return Err(e);
            },
            None => {
                existing.functions.push(f);
            },
        }
        k = k + 1;
    }
    assert(fin.subrange(k as int, fin.len() as int) =~= Seq::<ApiFn>::empty());
    assert(add_fns(name, existing.functions@, Seq::<ApiFn>::empty(), s as int) == Ok::<Seq<ApiFn>, MergeError>(existing.functions@));
    let mut evs = events;
    let mut k: usize = 0;
    let ghost f1 = existing.functions@;
    assert(ein.subrange(0, ein.len() as int) =~= ein);
    while evs.len() > 0
        invariant
            k <= ein.len(),
            ein.len() <= usize::MAX,
            evs@ == ein.subrange(k as int, ein.len() as int),
            s < surfaces@.len(),
            name == incoming.name,
            existing.name == old(existing).name,
            existing.is_singleton == old(existing).is_singleton,
            existing.functions@ == f1,
            e0 == old(existing).events@,
            ein == incoming.events@,
            add_fns(incoming.name, old(existing).functions@, incoming.functions@, s as int) == Ok::<Seq<ApiFn>, MergeError>(f1),
            module_surfaces_below(*existing, surfaces@.len() as int),
            forall|e: int| 0 <= e < ein.len() ==> (#[trigger] ein[e]).surface < surfaces@.len(),
            add_events(name, e0, ein, s as int) == add_events(
                name,
                existing.events@,
                ein.subrange(k as int, ein.len() as int),
                s as int,
            ),
        decreases evs.len(),
    {
        let ghost t = ein.subrange(k as int, ein.len() as int);
        assert(t[0] == ein[k as int]);
        assert(t.subrange(1, t.len() as int) =~= ein.subrange(k + 1, ein.len() as int));
        let ev = evs.remove(0);
        match find_event_index(&existing.events, &ev.name) {
            Some(pi) => {
                let prior = existing.events[pi].surface;
                let e = clash_text("event", &name, &ev.name, &surfaces[prior].api_dir, &surfaces[s].api_dir, "");
                return Err(e);
            },
            None => {
                existing.events.push(ev);
            },
        }
        k = k + 1;
    }
    assert(ein.subrange(k as int, ein.len() as int) =~= Seq::<EventFn>::empty());
    Ok(())
}

/// Whether `n` is one of the CRUD five.
pub fn is_crud_name(n: &str) -> (b: bool)
    ensures
        b == crud_names().contains(n@),
{
    let b = str_eq(n, "list") || str_eq(n, "get_by_id") || str_eq(n, "create") || str_eq(n, "update") || str_eq(
        n,
        "delete",
    );
    proof {
        let c = crud_names();
        assert(c[0] == "list"@ && c[1] == "get_by_id"@ && c[2] == "create"@ && c[3] == "update"@ && c[4]
            == "delete"@);
        if b {
            if n@ == c[0] {
                assert(c.contains(c[0]));
            } else if n@ == c[1] {
                assert(c.contains(c[1]));
            } else if n@ == c[2] {
                assert(c.contains(c[2]));
            } else if n@ == c[3] {
                assert(c.contains(c[3]));
            } else {
                assert(c.contains(c[4]));
            }
        }
    }
    b
}

fn first_crud_index(fs: &Vec<ApiFn>) -> (r: Option<usize>)
    ensures
        r matches Some(i) ==> i < fs@.len(),
        opt_int(r) == first_crud(fs@),
{
    let mut i: usize = 0;
    assert(fs@.subrange(0, fs@.len() as int) =~= fs@);
    while i < fs.len()
        invariant
            i <= fs.len(),
            first_crud(fs@) == (match first_crud(fs@.subrange(i as int, fs@.len() as int)) {
                Some(j) => Some(j + i),
                None => None,
            }),
        decreases fs.len() - i,
    {
        let ghost t = fs@.subrange(i as int, fs@.len() as int);
        assert(t[0] == fs@[i as int]);
        assert(t.subrange(1, t.len() as int) =~= fs@.subrange(i + 1, fs@.len() as int));
        if is_crud_name(fs[i].name.as_str()) {
            return Some(i);
        }
        i = i + 1;
    }
    None
}

fn first_crud_off_index(fs: &Vec<ApiFn>, surface: usize) -> (r: Option<usize>)
    ensures
        r matches Some(i) ==> i < fs@.len(),
        opt_int(r) == first_crud_off(fs@, surface),
{
    let mut i: usize = 0;
    assert(fs@.subrange(0, fs@.len() as int) =~= fs@);
    while i < fs.len()
        invariant
            i <= fs.len(),
            first_crud_off(fs@, surface) == (match first_crud_off(fs@.subrange(i as int, fs@.len() as int), surface) {
                Some(j) => Some(j + i),
                None => None,
            }),
        decreases fs.len() - i,
    {
        let ghost t = fs@.subrange(i as int, fs@.len() as int);
        assert(t[0] == fs@[i as int]);
        assert(t.subrange(1, t.len() as int) =~= fs@.subrange(i + 1, fs@.len() as int));
        if is_crud_name(fs[i].name.as_str()) && fs[i].surface != surface {
            return Some(i);
        }
        i = i + 1;
    }
    None
}

fn crud_split_index(fs: &Vec<ApiFn>) -> (r: Option<(usize, usize)>)
    ensures
        match split_crud(fs@) {
            Some((i, j)) => r matches Some((a, b)) && a == i && b == j && a < fs@.len() && b < fs@.len(),
            None => r is None,
        },
{
    match first_crud_index(fs) {
        None => None,
        Some(a) => match first_crud_off_index(fs, fs[a].surface) {
            None => None,
            Some(b) => Some((a, b)),
        },
    }
}

/// Merge per-surface module lists into one, folding same-named modules
/// together.
///
/// Module order is the primary surface's, with modules only later surfaces
/// define appended in surface order. Within a merged module, functions and
/// events keep surface order and `is_singleton` comes from the first
/// surface that defines the module. Errors when a function or event name
/// appears in more than one surface, or when the CRUD five are split
/// across surfaces.
pub fn merge_surfaces(per_surface: Vec<Vec<ApiModule>>, surfaces: &Vec<ApiSurface>) -> (r: Result<
    Vec<ApiModule>,
    String,
>)
    requires
        surfaces_cover(per_surface@, surfaces@),
    ensures
        match merge_outcome(per_views(per_surface@), surfaces@) {
            Ok(ms) => r matches Ok(v) && views(v@) == ms,
            Err(t) => r matches Err(e) && e@ == t,
        },
{
    let ghost orig = per_surface@;
    let ghost pv = per_views(orig);
    let ghost n = orig.len();
    assert(orig.len() == per_surface.len());
    let mut per = per_surface;
    let mut merged: Vec<ApiModule> = Vec::new();
    let mut s: usize = 0;
    assert(pv.subrange(0, pv.len() as int) =~= pv);
    assert(views(merged@) =~= Seq::<MView>::empty());
    while per.len() > 0
        invariant
            s <= n,
            n == orig.len(),
            n <= usize::MAX,
            orig == per_surface@,
            n <= surfaces@.len(),
            pv == per_views(orig),
            per@ == orig.subrange(s as int, n as int),
            surfaces_cover(orig, surfaces@),
            forall|m: int| 0 <= m < merged@.len() ==> module_surfaces_below(
                #[trigger] merged@[m],
                surfaces@.len() as int,
            ),
            merge_all(Seq::empty(), pv, 0) == merge_all(views(merged@), pv.subrange(s as int, n as int), s as int),
        decreases per.len(),
    {
        let ghost ps = pv[s as int];
        let ghost mods0 = orig[s as int]@;
        assert(pv.subrange(s as int, n as int)[0] == ps);
        assert(pv.subrange(s as int, n as int).subrange(1, n - s) =~= pv.subrange(s + 1, n as int));
        let ghost start = views(merged@);
        let modules = per.remove(0);
        assert(modules@ == mods0);
        assert(ps =~= Seq::new(mods0.len(), |j: int| mview(mods0[j])));
        let mut mods = modules;
        let mut j: usize = 0;
        assert(ps.subrange(0, ps.len() as int) =~= ps);
        assert(mods0.len() == mods.len());
        while mods.len() > 0
            invariant
                j <= mods0.len(),
                mods0.len() <= usize::MAX,
                s < n,
                n <= surfaces@.len(),
                mods@ == mods0.subrange(j as int, mods0.len() as int),
                ps == Seq::new(mods0.len(), |j: int| mview(mods0[j])),
                mods0 == orig[s as int]@,
                pv == per_views(orig),
                orig == per_surface@,
                n == orig.len(),
                pv.subrange(s as int, n as int).len() > 0,
                pv.subrange(s as int, n as int)[0] == ps,
                merge_all(Seq::empty(), pv, 0) == merge_all(start, pv.subrange(s as int, n as int), s as int),
                surfaces_cover(orig, surfaces@),
                forall|m: int| 0 <= m < merged@.len() ==> module_surfaces_below(
                    #[trigger] merged@[m],
                    surfaces@.len() as int,
                ),
                merge_list(start, ps, s as int) == merge_list(
                    views(merged@),
                    ps.subrange(j as int, ps.len() as int),
                    s as int,
                ),
            decreases mods.len(),
        {
            let ghost t = ps.subrange(j as int, ps.len() as int);
            assert(t[0] == ps[j as int]);
            assert(t.subrange(1, t.len() as int) =~= ps.subrange(j + 1, ps.len() as int));
            let ghost before = views(merged@);
            let incoming = mods.remove(0);
            assert(incoming == mods0[j as int]);
            assert(mview(incoming) == ps[j as int]);
            assert(module_surfaces_below(incoming, surfaces@.len() as int)) by {
                assert forall|f: int| 0 <= f < incoming.functions@.len() implies (
                #[trigger] incoming.functions@[f]).surface < surfaces@.len() by {
                    assert(orig[s as int]@[j as int].functions@[f] == incoming.functions@[f]);
                }
                assert forall|e: int| 0 <= e < incoming.events@.len() implies (
                #[trigger] incoming.events@[e]).surface < surfaces@.len() by {
                    assert(orig[s as int]@[j as int].events@[e] == incoming.events@[e]);
                }
            }
            match find_module_index(&merged, &incoming.name) {
                None => {
                    merged.push(incoming);
                    assert(views(merged@) =~= before.push(ps[j as int]));
                },
                Some(idx) => {
                    let ghost mi = incoming;
                    let mut existing = merged.remove(idx);
                    assert(mview(existing) == before[idx as int]);
                    let res = merge_into(&mut existing, incoming, s, surfaces);
                    match res {
                        Err(e) => {
                            proof {
                                let err = match add_fns(mi.name, before[idx as int].functions, mi.functions@, s as int) {
                                    Err(x) => x,
                                    Ok(fs) => add_events(mi.name, before[idx as int].events, mi.events@, s as int)->Err_0,
                                };
                                assert(find_module(before, mi.name) == Some(idx as int));
                                assert(merge_module(before, ps[j as int], s as int) == Err::<Seq<MView>, MergeError>(err));
                                assert(merge_list(before, t, s as int) == Err::<Seq<MView>, MergeError>(err));
                                assert(merge_all(start, pv.subrange(s as int, n as int), s as int) == Err::<Seq<MView>, MergeError>(err));
                            }
                            return Err(e);
                        },
                        Ok(()) => {},
                    }
                    merged.insert(idx, existing);
                    proof {
                        let mv = mview(existing);
                        assert(views(merged@) =~= before.update(
                            idx as int,
                            MView { functions: mv.functions, events: mv.events, ..before[idx as int] },
                        ));
                    }
                },
            }
            j = j + 1;
        }
        assert(ps.subrange(j as int, ps.len() as int) =~= Seq::<MView>::empty());
        s = s + 1;
    }
    assert(pv.subrange(s as int, n as int) =~= Seq::<Seq<MView>>::empty());
    let ghost ms = views(merged@);
    assert(merge_all(Seq::empty(), pv, 0) == Ok::<Seq<MView>, MergeError>(ms));
    let mut i: usize = 0;
    assert(ms.subrange(0, ms.len() as int) =~= ms);
    while i < merged.len()
        invariant
            i <= merged.len(),
            ms == views(merged@),
            pv == per_views(per_surface@),
            merge_all(Seq::empty(), pv, 0) == Ok::<Seq<MView>, MergeError>(ms),
            forall|m: int| 0 <= m < merged@.len() ==> module_surfaces_below(
                #[trigger] merged@[m],
                surfaces@.len() as int,
            ),
            first_crud_split(ms) == (match first_crud_split(ms.subrange(i as int, ms.len() as int)) {
                Some(j) => Some(j + i),
                None => None,
            }),
        decreases merged.len() - i,
    {
        let ghost t = ms.subrange(i as int, ms.len() as int);
        assert(t[0] == ms[i as int]);
        assert(t.subrange(1, t.len() as int) =~= ms.subrange(i + 1, ms.len() as int));
        match crud_split_index(&merged[i].functions) {
            Some((a, b)) => {
                let m = &merged[i];
                let fa = &m.functions[a];
                let fb = &m.functions[b];
                assert(module_surfaces_below(merged@[i as int], surfaces@.len() as int));
                let mut e = String::from_str("ontogen: the CRUD functions of module `");
                e.append(m.name.as_str());
                e.append("` must come from one API surface, but `");
                e.append(fa.name.as_str());
                e.append("` is in `");
                e.append(surfaces[fa.surface].api_dir.as_str());
                e.append("` and `");
                e.append(fb.name.as_str());
                e.append("` is in `");
                e.append(surfaces[fb.surface].api_dir.as_str());
                e.append("`");
                return Err(e);
            },
            None => {},
        }
        i = i + 1;
    }
    Ok(merged)
}

// ─── Scan bookkeeping ───────────────────────────────────────────────────────

/// The result of scanning a directory of API source files.
#[derive(Debug)]
pub struct ScanResult {
    /// The modules with at least one function or event.
    pub modules: Vec<ApiModule>,
    /// Every file's skip records, in file order.
    pub skips: Vec<SkipRecord>,
}

/// The module of a file's result is kept: it exists and has a function or
/// an event.
pub open spec fn kept(p: ModuleParseResult) -> bool {
    p.module matches Some(m) && (m.functions@.len() > 0 || m.events@.len() > 0)
}

/// The kept modules of the results, in order.
pub open spec fn kept_modules(ps: Seq<ModuleParseResult>) -> Seq<ApiModule>
    decreases ps.len(),
{
    if ps.len() == 0 {
        Seq::empty()
    } else {
        let rest = kept_modules(ps.drop_last());
        if kept(ps.last()) {
            rest.push(ps.last().module->0)
        } else {
            rest
        }
    }
}

/// The skip records of the results, concatenated in order.
pub open spec fn all_skips(ps: Seq<ModuleParseResult>) -> Seq<SkipRecord>
    decreases ps.len(),
{
    if ps.len() == 0 {
        Seq::empty()
    } else {
        all_skips(ps.drop_last()) + ps.last().skips@
    }
}

/// Gather the per-file results of a directory scan, in file order: the
/// modules that have a function or an event, and every skip record.
pub fn scan_results(parsed: Vec<ModuleParseResult>) -> (r: ScanResult)
    ensures
        r.modules@ == kept_modules(parsed@),
        r.skips@ == all_skips(parsed@),
{
    let ghost orig = parsed@;
    assert(orig.len() == parsed.len());
    let mut parsed = parsed;
    let mut modules: Vec<ApiModule> = Vec::new();
    let mut skips: Vec<SkipRecord> = Vec::new();
    let mut k: usize = 0;
    assert(orig.subrange(0, 0) =~= Seq::<ModuleParseResult>::empty());
    while parsed.len() > 0
        invariant
            k <= orig.len(),
            orig.len() <= usize::MAX,
            parsed@ == orig.subrange(k as int, orig.len() as int),
            modules@ == kept_modules(orig.subrange(0, k as int)),
            skips@ == all_skips(orig.subrange(0, k as int)),
        decreases parsed.len(),
    {
        let ghost now = orig.subrange(0, k + 1);
        assert(now.drop_last() =~= orig.subrange(0, k as int));
        let p = parsed.remove(0);
        assert(p == now.last());
        let mut more = p.skips;
        let ghost before = skips@;
        skips.append(&mut more);
        assert(skips@ =~= before + p.skips@);
        match p.module {
            Some(m) => {
                if m.functions.len() > 0 || m.events.len() > 0 {
                    modules.push(m);
                }
            },
            None => {},
        }
        k = k + 1;
    }
    assert(orig.subrange(0, k as int) =~= orig);
    ScanResult { modules, skips }
}

/// Stamp every function and event with the surface it was scanned from,
/// and every function with the surface's store accessor.
pub fn stamp_surface(modules: &mut Vec<ApiModule>, surface: usize, accessor: &str)
    ensures
        final(modules)@.len() == old(modules)@.len(),
        forall|i: int|
            0 <= i < final(modules)@.len() ==> {
                let (m, o) = (#[trigger] final(modules)@[i], old(modules)@[i]);
                &&& m.name == o.name
                &&& m.is_singleton == o.is_singleton
                &&& m.functions@.len() == o.functions@.len()
                &&& m.events@.len() == o.events@.len()
                &&& forall|f: int|
                    0 <= f < m.functions@.len() ==> {
                        let (nf, of) = (#[trigger] m.functions@[f], o.functions@[f]);
                        &&& nf.surface == surface
                        &&& nf.store_accessor@ == accessor@
                        &&& nf == ApiFn { surface: nf.surface, store_accessor: nf.store_accessor, ..of }
                    }
                &&& forall|e: int|
                    0 <= e < m.events@.len() ==> (#[trigger] m.events@[e]).surface == surface
                        && m.events@[e].name == o.events@[e].name
            },
{
    let mut i: usize = 0;
    while i < modules.len()
        invariant
            i <= modules.len(),
            modules@.len() == old(modules)@.len(),
            forall|j: int| i <= j < modules@.len() ==> #[trigger] modules@[j] == old(modules)@[j],
            forall|j: int|
                0 <= j < i ==> {
                    let (m, o) = (#[trigger] modules@[j], old(modules)@[j]);
                    &&& m.name == o.name
                    &&& m.is_singleton == o.is_singleton
                    &&& m.functions@.len() == o.functions@.len()
                    &&& m.events@.len() == o.events@.len()
                    &&& forall|f: int|
                        0 <= f < m.functions@.len() ==> {
                            let (nf, of) = (#[trigger] m.functions@[f], o.functions@[f]);
                            &&& nf.surface == surface
                            &&& nf.store_accessor@ == accessor@
                            &&& nf == ApiFn { surface: nf.surface, store_accessor: nf.store_accessor, ..of }
                        }
                    &&& forall|e: int|
                        0 <= e < m.events@.len() ==> (#[trigger] m.events@[e]).surface == surface
                            && m.events@[e].name == o.events@[e].name
                },
        decreases modules.len() - i,
    {
        let ghost o = modules@[i as int];
        let mut m = modules.remove(i);
        let mut fns: Vec<ApiFn> = Vec::new();
        let ghost ofs = m.functions@;
        assert(ofs.len() == m.functions.len());
        let mut old_fns = m.functions;
        let mut k: usize = 0;
        while old_fns.len() > 0
            invariant
                k <= ofs.len(),
                ofs.len() <= usize::MAX,
                old_fns@ == ofs.subrange(k as int, ofs.len() as int),
                fns@.len() == k,
                forall|f: int|
                    0 <= f < k ==> {
                        let (nf, of) = (#[trigger] fns@[f], ofs[f]);
                        &&& nf.surface == surface
                        &&& nf.store_accessor@ == accessor@
                        &&& nf == ApiFn { surface: nf.surface, store_accessor: nf.store_accessor, ..of }
                    },
            decreases old_fns.len(),
        {
            let mut f = old_fns.remove(0);
            f.surface = surface;
            f.store_accessor = owned(accessor);
            fns.push(f);
            k = k + 1;
        }
        let mut evs: Vec<EventFn> = Vec::new();
        let ghost oes = m.events@;
        assert(oes.len() == m.events.len());
        let mut old_evs = m.events;
        let mut k: usize = 0;
        while old_evs.len() > 0
            invariant
                k <= oes.len(),
                oes.len() <= usize::MAX,
                old_evs@ == oes.subrange(k as int, oes.len() as int),
                evs@.len() == k,
                forall|x: int|
                    0 <= x < k ==> (#[trigger] evs@[x]).surface == surface && evs@[x].name == oes[x].name,
            decreases old_evs.len(),
        {
            let mut ev = old_evs.remove(0);
            ev.surface = surface;
            evs.push(ev);
            k = k + 1;
        }
        let nm = ApiModule { name: m.name, functions: fns, events: evs, is_singleton: m.is_singleton };
        modules.insert(i, nm);
        i = i + 1;
    }
}

/// `m` is `o` stamped with surface `surface` and store accessor `accessor`.
pub open spec fn stamped_from(m: ApiModule, o: ApiModule, surface: usize, accessor: Seq<char>) -> bool {
    &&& m.name == o.name
    &&& m.is_singleton == o.is_singleton
    &&& m.functions@.len() == o.functions@.len()
    &&& m.events@.len() == o.events@.len()
    &&& forall|f: int|
        0 <= f < m.functions@.len() ==> {
            let (nf, of) = (#[trigger] m.functions@[f], o.functions@[f]);
            &&& nf.surface == surface
            &&& nf.store_accessor@ == accessor
            &&& nf == ApiFn { surface: nf.surface, store_accessor: nf.store_accessor, ..of }
        }
    &&& forall|e: int|
        0 <= e < m.events@.len() ==> (#[trigger] m.events@[e]).surface == surface && m.events@[e].name
            == o.events@[e].name
}

/// The skip records of several scans, concatenated in order.
pub open spec fn scans_skips(scans: Seq<ScanResult>) -> Seq<SkipRecord>
    decreases scans.len(),
{
    if scans.len() == 0 {
        Seq::empty()
    } else {
        scans_skips(scans.drop_last()) + scans.last().skips@
    }
}

/// `st` holds the scans' modules stamped with their surfaces.
pub open spec fn stamped_scans(st: Seq<Vec<ApiModule>>, scans: Seq<ScanResult>, surfaces: Seq<ApiSurface>) -> bool {
    &&& st.len() == scans.len()
    &&& forall|k: int|
        0 <= k < st.len() ==> (#[trigger] st[k])@.len() == scans[k].modules@.len() && forall|j: int|
            0 <= j < st[k]@.len() ==> stamped_from(
                #[trigger] st[k]@[j],
                scans[k].modules@[j],
                k as usize,
                surfaces[k].store_accessor_spec(),
            )
}

/// Merge the scans of every surface (one scan per surface, in surface
/// order): each function and event is stamped with its surface index and
/// each function with its surface's store accessor, the skip records are
/// concatenated, and same-named modules merge under [`merge_surfaces`]'s
/// rules.
pub fn scan_surfaces(scanned: Vec<ScanResult>, surfaces: &Vec<ApiSurface>) -> (r: Result<ScanResult, String>)
    requires
        scanned@.len() == surfaces@.len(),
    ensures
        exists|st: Seq<Vec<ApiModule>>|
            {
                &&& stamped_scans(st, scanned@, surfaces@)
                &&& match merge_outcome(per_views(st), surfaces@) {
                    Ok(ms) => r matches Ok(res) && views(res.modules@) == ms && res.skips@ == scans_skips(scanned@),
                    Err(t) => r matches Err(e) && e@ == t,
                }
            },
{
    let ghost orig = scanned@;
    assert(orig.len() == scanned.len());
    let mut scanned = scanned;
    let mut per: Vec<Vec<ApiModule>> = Vec::new();
    let mut skips: Vec<SkipRecord> = Vec::new();
    let mut i: usize = 0;
    assert(orig.subrange(0, 0) =~= Seq::<ScanResult>::empty());
    while scanned.len() > 0
        invariant
            i <= orig.len(),
            orig.len() == surfaces@.len(),
            orig.len() <= usize::MAX,
            scanned@ == orig.subrange(i as int, orig.len() as int),
            stamped_scans(per@, orig.subrange(0, i as int), surfaces@),
            skips@ == scans_skips(orig.subrange(0, i as int)),
            surfaces_cover(per@, surfaces@),
        decreases scanned.len(),
    {
        let ghost now = orig.subrange(0, i + 1);
        assert(now.drop_last() =~= orig.subrange(0, i as int));
        let sr = scanned.remove(0);
        assert(sr == orig[i as int]);
        let ScanResult { modules, skips: more } = sr;
        let mut modules = modules;
        let accessor = surfaces[i].store_accessor();
        stamp_surface(&mut modules, i, accessor);
        let mut more = more;
        let ghost before = skips@;
        skips.append(&mut more);
        assert(skips@ =~= before + orig[i as int].skips@);
        let ghost pb = per@;
        per.push(modules);
        proof {
            assert forall|k: int| 0 <= k < per@.len() implies (#[trigger] per@[k])@.len() == now[k].modules@.len()
                && forall|j: int|
                0 <= j < per@[k]@.len() ==> stamped_from(
                    #[trigger] per@[k]@[j],
                    now[k].modules@[j],
                    k as usize,
                    surfaces@[k].store_accessor_spec(),
                ) by {
                if k < i {
                    assert(per@[k] == pb[k]);
                    assert(now[k] == orig.subrange(0, i as int)[k]);
                }
            }
            assert forall|k: int, j: int, f: int|
                0 <= k < per@.len() && 0 <= j < per@[k]@.len() && 0 <= f < per@[k]@[j].functions@.len() implies (
            #[trigger] per@[k]@[j].functions@[f]).surface < surfaces@.len() by {
                if k < i {
                    assert(per@[k] == pb[k]);
                } else {
                    assert(stamped_from(per@[k]@[j], now[k].modules@[j], k as usize, surfaces@[k].store_accessor_spec()));
                }
            }
            assert forall|k: int, j: int, e: int|
                0 <= k < per@.len() && 0 <= j < per@[k]@.len() && 0 <= e < per@[k]@[j].events@.len() implies (
            #[trigger] per@[k]@[j].events@[e]).surface < surfaces@.len() by {
                if k < i {
                    assert(per@[k] == pb[k]);
                } else {
                    assert(stamped_from(per@[k]@[j], now[k].modules@[j], k as usize, surfaces@[k].store_accessor_spec()));
                }
            }
        }
        i = i + 1;
    }
    assert(orig.subrange(0, i as int) =~= orig);
    let ghost st = per@;
    let merged = merge_surfaces(per, surfaces);
    match merged {
        Ok(modules) => Ok(ScanResult { modules, skips }),
        Err(e) => Err(e),
    }
}

/// Apply per-function command-name overrides from the naming config: a key
/// `module::fn_name` gives the function's command name, unless the source
/// already renamed it.
pub fn apply_command_overrides(modules: &mut Vec<ApiModule>, naming: &NamingConfig)
    ensures
        final(modules)@.len() == old(modules)@.len(),
        forall|i: int|
            0 <= i < final(modules)@.len() ==> {
                let (m, o) = (#[trigger] final(modules)@[i], old(modules)@[i]);
                &&& m.name == o.name
                &&& m.is_singleton == o.is_singleton
                &&& m.events == o.events
                &&& m.functions@.len() == o.functions@.len()
                &&& forall|f: int|
                    0 <= f < m.functions@.len() ==> {
                        let (nf, of) = (#[trigger] m.functions@[f], o.functions@[f]);
                        &&& nf == ApiFn { command_override: nf.command_override, ..of }
                        &&& match of.command_override {
                            Some(c) => nf.command_override == Some(c),
                            None => match naming.command_overrides.get_spec(o.name@ + "::"@ + of.name@) {
                                Some(v) => nf.command_override matches Some(x) && x@ == v,
                                None => nf.command_override is None,
                            },
                        }
                    }
            },
{
    let mut i: usize = 0;
    while i < modules.len()
        invariant
            i <= modules.len(),
            modules@.len() == old(modules)@.len(),
            forall|j: int| i <= j < modules@.len() ==> #[trigger] modules@[j] == old(modules)@[j],
            forall|j: int|
                0 <= j < i ==> {
                    let (m, o) = (#[trigger] modules@[j], old(modules)@[j]);
                    &&& m.name == o.name
                    &&& m.is_singleton == o.is_singleton
                    &&& m.events == o.events
                    &&& m.functions@.len() == o.functions@.len()
                    &&& forall|f: int|
                        0 <= f < m.functions@.len() ==> {
                            let (nf, of) = (#[trigger] m.functions@[f], o.functions@[f]);
                            &&& nf == ApiFn { command_override: nf.command_override, ..of }
                            &&& match of.command_override {
                                Some(c) => nf.command_override == Some(c),
                                None => match naming.command_overrides.get_spec(o.name@ + "::"@ + of.name@) {
                                    Some(v) => nf.command_override matches Some(x) && x@ == v,
                                    None => nf.command_override is None,
                                },
                            }
                        }
                },
        decreases modules.len() - i,
    {
        let m = modules.remove(i);
        let ghost o = m;
        let ApiModule { name, functions, events, is_singleton } = m;
        let ghost ofs = functions@;
        assert(ofs.len() == functions.len());
        let mut old_fns = functions;
        let mut fns: Vec<ApiFn> = Vec::new();
        let mut k: usize = 0;
        while old_fns.len() > 0
            invariant
                k <= ofs.len(),
                ofs.len() <= usize::MAX,
                old_fns@ == ofs.subrange(k as int, ofs.len() as int),
                fns@.len() == k,
                forall|f: int|
                    0 <= f < k ==> {
                        let (nf, of) = (#[trigger] fns@[f], ofs[f]);
                        &&& nf == ApiFn { command_override: nf.command_override, ..of }
                        &&& match of.command_override {
                            Some(c) => nf.command_override == Some(c),
                            None => match naming.command_overrides.get_spec(name@ + "::"@ + of.name@) {
                                Some(v) => nf.command_override matches Some(x) && x@ == v,
                                None => nf.command_override is None,
                            },
                        }
                    },
            decreases old_fns.len(),
        {
            let mut f = old_fns.remove(0);
            if f.command_override.is_none() {
                let mut key = name.clone();
                key.append("::");
                key.append(f.name.as_str());
                match naming.command_overrides.get(key.as_str()) {
                    Some(v) => {
                        f.command_override = Some(v);
                    },
                    None => {},
                }
            }
            fns.push(f);
            k = k + 1;
        }
        modules.insert(i, ApiModule { name, functions: fns, events, is_singleton });
        i = i + 1;
    }
}

/// A function after the command-name overrides: unchanged but for its
/// command override, which the source's rename keeps, else the config's
/// `module::fn` entry gives.
pub open spec fn fn_override_applied(nf: ApiFn, of: ApiFn, module: Seq<char>, naming: NamingConfig) -> bool {
    &&& nf == ApiFn { command_override: nf.command_override, ..of }
    &&& match of.command_override {
        Some(c) => nf.command_override == Some(c),
        None => match naming.command_overrides.get_spec(module + "::"@ + of.name@) {
            Some(v) => nf.command_override matches Some(x) && x@ == v,
            None => nf.command_override is None,
        },
    }
}

/// The modules after the singleton overlay and the command-name overrides.
pub open spec fn overlays_applied(new: Seq<ApiModule>, old: Seq<ApiModule>, naming: NamingConfig) -> bool {
    &&& new.len() == old.len()
    &&& forall|i: int|
        0 <= i < new.len() ==> {
            let (m, o) = (#[trigger] new[i], old[i]);
            &&& m.name == o.name
            &&& m.events == o.events
            &&& m.is_singleton == (o.is_singleton || naming.singleton_modules.deep_view().contains(o.name@))
            &&& m.functions@.len() == o.functions@.len()
            &&& forall|f: int|
                0 <= f < m.functions@.len() ==> fn_override_applied(
                    #[trigger] m.functions@[f],
                    o.functions@[f],
                    o.name@,
                    naming,
                )
        }
}

/// Mark the configured singleton modules, then apply the configured
/// command-name overrides.
pub fn apply_overlays(modules: &mut Vec<ApiModule>, naming: &NamingConfig)
    ensures
        overlays_applied(final(modules)@, old(modules)@, *naming),
{
    crate::servers::parse::apply_singleton_overlay(modules, naming);
    let ghost mid = modules@;
    apply_command_overrides(modules, naming);
    assert forall|i: int| 0 <= i < modules@.len() implies {
        let (m, o) = (#[trigger] modules@[i], old(modules)@[i]);
        &&& m.name == o.name
        &&& m.events == o.events
        &&& m.is_singleton == (o.is_singleton || naming.singleton_modules.deep_view().contains(o.name@))
        &&& m.functions@.len() == o.functions@.len()
        &&& forall|f: int|
            0 <= f < m.functions@.len() ==> fn_override_applied(
                #[trigger] m.functions@[f],
                o.functions@[f],
                o.name@,
                *naming,
            )
    } by {
        let (m, md, o) = (modules@[i], mid[i], old(modules)@[i]);
        assert(md.functions == o.functions);
        assert forall|f: int| 0 <= f < m.functions@.len() implies fn_override_applied(
            #[trigger] m.functions@[f],
            o.functions@[f],
            o.name@,
            *naming,
        ) by {
            assert(md.functions@[f] == o.functions@[f]);
        }
    }
}

} // verus!
