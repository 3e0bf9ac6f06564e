//! The API layer's metadata: the CRUD functions generated for each
//! entity, and hand-written API modules merged in from scanning.

use vstd::prelude::*;

use crate::ir::{ApiFnMeta, ApiModule, OpKind, OpKindView, ParamMeta, Source, StateKind};
use crate::naming::{snake_spec, to_snake_case};
use crate::order::{sort_strings, sorted_spec, sorted_strings};
use crate::schema::model::EntityDef;
use crate::servers::parse;
use crate::servers::types::vec_contains_str;
use crate::text::{str_eq, str_starts_with, starts_with};

verus! {

// ─── Classification ─────────────────────────────────────────────────────────

/// The parameter's type is neither optional nor a string.
pub open spec fn wants_post(ty: Seq<char>) -> bool {
    !starts_with(ty, "Option"@) && !starts_with(ty, "&str"@) && !starts_with(ty, "String"@)
}

/// The operation of a scanned API function: the CRUD five by name; any
/// other is a custom read unless some parameter is neither optional nor a
/// string.
pub open spec fn api_classify_spec(name: Seq<char>, params: Seq<parse::Param>) -> OpKindView {
    if name == "list"@ {
        OpKindView::List
    } else if name == "get_by_id"@ {
        OpKindView::GetById
    } else if name == "create"@ {
        OpKindView::Create
    } else if name == "update"@ {
        OpKindView::Update
    } else if name == "delete"@ {
        OpKindView::Delete
    } else if params.len() == 0 {
        OpKindView::CustomGet
    } else if exists|i: int| 0 <= i < params.len() && #[trigger] wants_post(params[i].ty@) {
        OpKindView::CustomPost
    } else {
        OpKindView::CustomGet
    }
}

/// Classify an API function by its name and parameter shape.
pub fn classify_op(name: &str, params: &Vec<parse::Param>) -> (op: OpKind)
    ensures
        op@ == api_classify_spec(name@, params@),
{
    if str_eq(name, "list") {
        return OpKind::List;
    } else if str_eq(name, "get_by_id") {
        return OpKind::GetById;
    } else if str_eq(name, "create") {
        return OpKind::Create;
    } else if str_eq(name, "update") {
        return OpKind::Update;
    } else if str_eq(name, "delete") {
        return OpKind::Delete;
    }
    if params.len() == 0 {
        return OpKind::CustomGet;
    }
    let mut i: usize = 0;
    while i < params.len()
        invariant
            i <= params.len(),
            params@.len() > 0,
            name@ != "list"@ && name@ != "get_by_id"@ && name@ != "create"@ && name@ != "update"@ && name@
                != "delete"@,
            forall|k: int| 0 <= k < i ==> !wants_post(#[trigger] params@[k].ty@),
        decreases params.len() - i,
    {
        let t = params[i].ty.as_str();
        if !str_starts_with(t, "Option") && !str_starts_with(t, "&str") && !str_starts_with(t, "String") {
            assert(wants_post(params@[i as int].ty@));
            return OpKind::CustomPost;
        }
        i = i + 1;
    }
    OpKind::CustomGet
}

// ─── Views ──────────────────────────────────────────────────────────────────

/// Where a function comes from, as views.
pub enum SourceV {
    Generated(Seq<char>),
    Scanned(Seq<char>, Seq<char>),
}

/// The view of a source.
pub open spec fn source_v(s: Source) -> SourceV {
    match s {
        Source::Generated { mod_path } => SourceV::Generated(mod_path@),
        Source::Scanned { mod_path, file_path } => SourceV::Scanned(mod_path@, file_path@),
    }
}

/// A function's metadata as views: (name, doc, parameters, return type,
/// source, operation).
pub type FnMetaV = (Seq<char>, Seq<char>, Seq<(Seq<char>, Seq<char>)>, Seq<char>, SourceV, OpKindView);

/// The view of a function's metadata.
pub open spec fn fn_meta_v(f: ApiFnMeta) -> FnMetaV {
    (
        f.name@,
        f.doc@,
        Seq::new(f.params@.len(), |i: int| (f.params@[i].name@, f.params@[i].param_type@)),
        f.return_type@,
        source_v(f.source),
        f.classified_op@,
    )
}

/// The views of a list of function metadata.
pub open spec fn fn_metas_v(fs: Seq<ApiFnMeta>) -> Seq<FnMetaV> {
    Seq::new(fs.len(), |i: int| fn_meta_v(fs[i]))
}

// ─── Scanned functions ──────────────────────────────────────────────────────

/// `dir` joined with the file name `file`, as a path.
pub open spec fn join_path(dir: Seq<char>, file: Seq<char>) -> Seq<char> {
    if dir.len() == 0 || dir.last() == '/' {
        dir + file
    } else {
        dir + "/"@ + file
    }
}

/// The source of a function scanned from module `module` in `dir`.
pub open spec fn scanned_source(dir: Seq<char>, module: Seq<char>) -> SourceV {
    SourceV::Scanned("crate::api::v1::"@ + module, join_path(dir, module + ".rs"@))
}

fn scanned_source_exec(scan_dir: &str, module_name: &str) -> (r: Source)
    ensures
        source_v(r) == scanned_source(scan_dir@, module_name@),
{
    let mut mp = String::from_str("crate::api::v1::");
    mp.append(module_name);
    let mut file = String::from_str(module_name);
    file.append(".rs");
    let mut fp = String::from_str(scan_dir);
    let v = crate::text::chars_of(scan_dir);
    if v.len() > 0 && v[v.len() - 1] != '/' {
        fp.append("/");
    }
    fp.append(file.as_str());
    Source::Scanned { mod_path: mp, file_path: fp }
}

/// The metadata of a scanned function.
pub open spec fn scanned_fn_v(f: parse::ApiFn, dir: Seq<char>, module: Seq<char>) -> FnMetaV {
    (
        f.name@,
        f.doc@,
        Seq::new(f.params@.len(), |i: int| (f.params@[i].name@, f.params@[i].ty@)),
        f.return_type@,
        scanned_source(dir, module),
        api_classify_spec(f.name@, f.params@),
    )
}

/// The metadata of a scanned event stream.
pub open spec fn scanned_event_v(e: parse::EventFn, dir: Seq<char>, module: Seq<char>) -> FnMetaV {
    (e.name@, Seq::empty(), Seq::empty(), "EventStream"@, scanned_source(dir, module), OpKindView::EventStream)
}

/// Convert a scanned function into API metadata.
pub fn convert_scanned_fn(func: &parse::ApiFn, scan_dir: &str, module_name: &str) -> (r: ApiFnMeta)
    ensures
        fn_meta_v(r) == scanned_fn_v(*func, scan_dir@, module_name@),
{
    let mut params: Vec<ParamMeta> = Vec::new();
    let mut i: usize = 0;
    while i < func.params.len()
        invariant
            i <= func.params.len(),
            params@.len() == i,
            forall|k: int|
                0 <= k < i ==> (#[trigger] params@[k]).name@ == func.params@[k].name@ && params@[k].param_type@
                    == func.params@[k].ty@,
        decreases func.params.len() - i,
    {
        params.push(ParamMeta { name: func.params[i].name.clone(), param_type: func.params[i].ty.clone() });
        i = i + 1;
    }
    let classified_op = classify_op(func.name.as_str(), &func.params);
    let r = ApiFnMeta {
        name: func.name.clone(),
        doc: func.doc.clone(),
        params,
        return_type: func.return_type.clone(),
        source: scanned_source_exec(scan_dir, module_name),
        classified_op,
    };
    assert(fn_meta_v(r).2 =~= scanned_fn_v(*func, scan_dir@, module_name@).2);
    r
}

/// Convert a scanned event function into API metadata of an event stream.
pub fn convert_scanned_event(event: &parse::EventFn, scan_dir: &str, module_name: &str) -> (r: ApiFnMeta)
    ensures
        fn_meta_v(r) == scanned_event_v(*event, scan_dir@, module_name@),
{
    let r = ApiFnMeta {
        name: event.name.clone(),
        doc: String::new(),
        params: Vec::new(),
        return_type: String::from_str("EventStream"),
        source: scanned_source_exec(scan_dir, module_name),
        classified_op: OpKind::EventStream,
    };
    assert(fn_meta_v(r).2 =~= Seq::<(Seq<char>, Seq<char>)>::empty());
    r
}

/// A module is store-scoped when any function takes the store first.
pub open spec fn state_kind_spec(m: parse::ApiModule) -> StateKind {
    if exists|i: int| 0 <= i < m.functions@.len() && (#[trigger] m.functions@[i]).first_param_is_store {
        StateKind::Store
    } else {
        StateKind::AppState
    }
}

/// Determine the state type of a scanned module: `Store` if any function
/// takes the store, else `AppState`.
pub fn determine_state_kind(scanned: &parse::ApiModule) -> (r: StateKind)
    ensures
        r == state_kind_spec(*scanned),
{
    let mut i: usize = 0;
    while i < scanned.functions.len()
        invariant
            i <= scanned.functions.len(),
            forall|k: int| 0 <= k < i ==> !(#[trigger] scanned.functions@[k]).first_param_is_store,
        decreases scanned.functions.len() - i,
    {
        if scanned.functions[i].first_param_is_store {
            return StateKind::Store;
        }
        i = i + 1;
    }
    StateKind::AppState
}

/// The converted functions of a scanned module: its functions, then its
/// events.
pub open spec fn scanned_fns_v(m: parse::ApiModule, dir: Seq<char>) -> Seq<FnMetaV> {
    Seq::new(m.functions@.len(), |i: int| scanned_fn_v(m.functions@[i], dir, m.name@)) + Seq::new(
        m.events@.len(),
        |i: int| scanned_event_v(m.events@[i], dir, m.name@),
    )
}

/// `acc` with each of `incoming` appended unless a function of that name
/// is already there.
pub open spec fn fold_new_fns(acc: Seq<FnMetaV>, incoming: Seq<FnMetaV>) -> Seq<FnMetaV>
    decreases incoming.len(),
{
    if incoming.len() == 0 {
        acc
    } else {
        let f = incoming[0];
        let next = if exists|k: int| 0 <= k < acc.len() && (#[trigger] acc[k]).0 == f.0 {
            acc
        } else {
            acc.push(f)
        };
        fold_new_fns(next, incoming.subrange(1, incoming.len() as int))
    }
}

/// The first module named `name`.
pub open spec fn first_module(ms: Seq<ApiModule>, name: Seq<char>) -> Option<int>
    decreases ms.len(),
{
    if ms.len() == 0 {
        None
    } else if ms[0].name@ == name {
        Some(0)
    } else {
        match first_module(ms.subrange(1, ms.len() as int), name) {
            Some(i) => Some(i + 1),
            None => None,
        }
    }
}

fn find_module(ms: &Vec<ApiModule>, name: &str) -> (r: Option<usize>)
    ensures
        r matches Some(k) ==> k < ms@.len() && first_module(ms@, name@) == Some(k as int),
        r is None ==> first_module(ms@, name@) is None,
{
    let mut i: usize = 0;
    assert(ms@.subrange(0, ms@.len() as int) =~= ms@);
    while i < ms.len()
        invariant
            i <= ms.len(),
            first_module(ms@, name@) == (match first_module(ms@.subrange(i as int, ms@.len() as int), name@) {
                Some(j) => Some(j + i),
                None => None,
            }),
        decreases ms.len() - i,
    {
        let ghost t = ms@.subrange(i as int, ms@.len() as int);
        assert(t[0] == ms@[i as int]);
        assert(t.subrange(1, t.len() as int) =~= ms@.subrange(i + 1, ms@.len() as int));
        if str_eq(ms[i].name.as_str(), name) {
            return Some(i);
        }
        i = i + 1;
    }
    None
}

fn has_fn_named(fs: &Vec<ApiFnMeta>, name: &str) -> (b: bool)
    ensures
        b == exists|k: int| 0 <= k < fs@.len() && (#[trigger] fn_metas_v(fs@)[k]).0 == name@,
{
    let mut i: usize = 0;
    while i < fs.len()
        invariant
            i <= fs.len(),
            forall|k: int| 0 <= k < i ==> (#[trigger] fn_metas_v(fs@)[k]).0 != name@,
        decreases fs.len() - i,
    {
        if str_eq(fs[i].name.as_str(), name) {
            assert(fn_metas_v(fs@)[i as int].0 == name@);
            return true;
        }
        i = i + 1;
    }
    false
}

/// Merge a scanned module into the module list: into the module of the
/// same name (functions it already has are not duplicated), or as a new
/// module; a scanned module with no functions or events changes nothing.
pub fn merge_scanned_module(modules: &mut Vec<ApiModule>, scanned: &parse::ApiModule, scan_dir: &str)
    ensures
        scanned_fns_v(*scanned, scan_dir@).len() == 0 ==> final(modules)@ == old(modules)@,
        scanned_fns_v(*scanned, scan_dir@).len() > 0 ==> match first_module(old(modules)@, scanned.name@) {
            Some(i) => {
                &&& final(modules)@.len() == old(modules)@.len()
                &&& forall|j: int| 0 <= j < old(modules)@.len() && j != i ==> final(modules)@[j] == old(modules)@[j]
                &&& final(modules)@[i].name == old(modules)@[i].name
                &&& final(modules)@[i].state_type == old(modules)@[i].state_type
                &&& fn_metas_v(final(modules)@[i].fns@) == fold_new_fns(
                    fn_metas_v(old(modules)@[i].fns@),
                    scanned_fns_v(*scanned, scan_dir@),
                )
            },
            None => {
                &&& final(modules)@.len() == old(modules)@.len() + 1
                &&& final(modules)@.drop_last() == old(modules)@
                &&& final(modules)@.last().name@ == scanned.name@
                &&& final(modules)@.last().state_type == state_kind_spec(*scanned)
                &&& fn_metas_v(final(modules)@.last().fns@) == scanned_fns_v(*scanned, scan_dir@)
            },
        },
{
    let mut conv: Vec<ApiFnMeta> = Vec::new();
    let mut i: usize = 0;
    while i < scanned.functions.len()
        invariant
            i <= scanned.functions.len(),
            conv@.len() == i,
            forall|k: int|
                0 <= k < i ==> fn_meta_v(#[trigger] conv@[k]) == scanned_fn_v(
                    scanned.functions@[k],
                    scan_dir@,
                    scanned.name@,
                ),
        decreases scanned.functions.len() - i,
    {
        let f = convert_scanned_fn(&scanned.functions[i], scan_dir, scanned.name.as_str());
        conv.push(f);
        i = i + 1;
    }
    let nf = conv.len();
    let mut e: usize = 0;
    while e < scanned.events.len()
        invariant
            e <= scanned.events.len(),
            nf == scanned.functions@.len(),
            conv@.len() == nf + e,
            forall|k: int|
                0 <= k < nf ==> fn_meta_v(#[trigger] conv@[k]) == scanned_fn_v(
                    scanned.functions@[k],
                    scan_dir@,
                    scanned.name@,
                ),
            forall|k: int|
                nf <= k < nf + e ==> fn_meta_v(#[trigger] conv@[k]) == scanned_event_v(
                    scanned.events@[k - nf],
                    scan_dir@,
                    scanned.name@,
                ),
        decreases scanned.events.len() - e,
    {
        let f = convert_scanned_event(&scanned.events[e], scan_dir, scanned.name.as_str());
        conv.push(f);
        e = e + 1;
    }
    assert(fn_metas_v(conv@) =~= scanned_fns_v(*scanned, scan_dir@));
    if conv.len() == 0 {
        return;
    }
    match find_module(modules, scanned.name.as_str()) {
        Some(idx) => {
            let ghost old_m = modules@[idx as int];
            let ghost old_ms = modules@;
            let mut existing = modules.remove(idx);
            let ghost cv = fn_metas_v(conv@);
            let ghost start = fn_metas_v(existing.fns@);
            let mut src = conv;
            let mut k: usize = 0;
            assert(cv.subrange(0, cv.len() as int) =~= cv);
            assert(cv.len() == src.len());
            while src.len() > 0
                invariant
                    k <= cv.len(),
                    cv.len() <= usize::MAX,
                    fn_metas_v(src@) == cv.subrange(k as int, cv.len() as int),
                    fold_new_fns(start, cv) == fold_new_fns(fn_metas_v(existing.fns@), cv.subrange(k as int, cv.len() as int)),
                    existing.name == old_m.name,
                    existing.state_type == old_m.state_type,
                    modules@ == old_ms.remove(idx as int),
                decreases src.len(),
            {
                let ghost t = cv.subrange(k as int, cv.len() as int);
                assert(t.subrange(1, t.len() as int) =~= cv.subrange(k + 1, cv.len() as int));
                let ghost sv = fn_metas_v(src@);
                let f = src.remove(0);
                assert(fn_meta_v(f) == sv[0]);
                assert(fn_metas_v(src@) =~= sv.subrange(1, sv.len() as int));
                if !has_fn_named(&existing.fns, f.name.as_str()) {
                    let ghost before = fn_metas_v(existing.fns@);
                    existing.fns.push(f);
                    assert(fn_metas_v(existing.fns@) =~= before.push(t[0]));
                }
                k = k + 1;
            }
            assert(cv.subrange(k as int, cv.len() as int) =~= Seq::<FnMetaV>::empty());
            let ghost ex = existing;
            modules.insert(idx, existing);
            proof {
                assert(modules@ == old_ms.remove(idx as int).insert(idx as int, ex));
                assert forall|j: int| 0 <= j < old_ms.len() && j != idx implies modules@[j] == old_ms[j] by {
                    if j < idx {
                        assert(modules@[j] == old_ms.remove(idx as int)[j]);
                    } else {
                        assert(modules@[j] == old_ms.remove(idx as int)[j - 1]);
                    }
                }
                assert(modules@[idx as int] == ex);
            }
        },
        None => {
            let state_type = determine_state_kind(scanned);
            modules.push(ApiModule { name: scanned.name.clone(), fns: conv, state_type });
        },
    }
}

// ─── Generated modules ──────────────────────────────────────────────────────

/// The metadata of the CRUD module generated for an entity: `list`,
/// `get_by_id`, `create`, `update` and `delete`, store-scoped.
pub open spec fn generated_module_v(e: EntityDef) -> (Seq<char>, Seq<FnMetaV>) {
    let snake = snake_spec(e.name@);
    let name = e.name@;
    let src = SourceV::Generated("crate::api::v1::generated::"@ + snake);
    (
        snake,
        seq![
            ("list"@, "List all "@ + snake + "s"@, Seq::empty(), "Vec<"@ + name + ">"@, src, OpKindView::List),
            (
                "get_by_id"@,
                "Get a single "@ + snake + " by ID"@,
                seq![("id"@, "&str"@)],
                name,
                src,
                OpKindView::GetById,
            ),
            (
                "create"@,
                "Create a new "@ + snake,
                seq![("input"@, "Create"@ + name + "Input"@)],
                name,
                src,
                OpKindView::Create,
            ),
            (
                "update"@,
                "Update an existing "@ + snake,
                seq![("id"@, "&str"@), ("input"@, "Update"@ + name + "Input"@)],
                name,
                src,
                OpKindView::Update,
            ),
            ("delete"@, "Delete a "@ + snake + " by ID"@, seq![("id"@, "&str"@)], "()"@, src, OpKindView::Delete),
        ],
    )
}

fn concat2(a: &str, b: &str) -> (r: String)
    ensures
        r@ == a@ + b@,
{
    let mut r = String::from_str(a);
    r.append(b);
    r
}

fn concat3(a: &str, b: &str, c: &str) -> (r: String)
    ensures
        r@ == a@ + b@ + c@,
{
    let mut r = String::from_str(a);
    r.append(b);
    r.append(c);
    r
}

fn pm(name: &str, ty: String) -> (r: ParamMeta)
    ensures
        r.name@ == name@,
        r.param_type == ty,
{
    ParamMeta { name: String::from_str(name), param_type: ty }
}

/// Collect the API metadata of the CRUD module generated for an entity.
pub fn collect_generated_module_meta(entity: &EntityDef) -> (r: ApiModule)
    ensures
        r.name@ == generated_module_v(*entity).0,
        fn_metas_v(r.fns@) == generated_module_v(*entity).1,
        r.state_type == StateKind::Store,
{
    let snake = to_snake_case(entity.name.as_str());
    let s = snake.as_str();
    let name = entity.name.as_str();
    let mp = concat2("crate::api::v1::generated::", s);
    let mut fns: Vec<ApiFnMeta> = Vec::new();
    fns.push(
        ApiFnMeta {
            name: String::from_str("list"),
            doc: concat3("List all ", s, "s"),
            params: Vec::new(),
            return_type: concat3("Vec<", name, ">"),
            source: Source::Generated { mod_path: mp.clone() },
            classified_op: OpKind::List,
        },
    );
    let mut p1: Vec<ParamMeta> = Vec::new();
    p1.push(pm("id", String::from_str("&str")));
    fns.push(
        ApiFnMeta {
            name: String::from_str("get_by_id"),
            doc: concat3("Get a single ", s, " by ID"),
            params: p1,
            return_type: String::from_str(name),
            source: Source::Generated { mod_path: mp.clone() },
            classified_op: OpKind::GetById,
        },
    );
    let mut p2: Vec<ParamMeta> = Vec::new();
    p2.push(pm("input", concat3("Create", name, "Input")));
    fns.push(
        ApiFnMeta {
            name: String::from_str("create"),
            doc: concat2("Create a new ", s),
            params: p2,
            return_type: String::from_str(name),
            source: Source::Generated { mod_path: mp.clone() },
            classified_op: OpKind::Create,
        },
    );
    let mut p3: Vec<ParamMeta> = Vec::new();
    p3.push(pm("id", String::from_str("&str")));
    p3.push(pm("input", concat3("Update", name, "Input")));
    fns.push(
        ApiFnMeta {
            name: String::from_str("update"),
            doc: concat2("Update an existing ", s),
            params: p3,
            return_type: String::from_str(name),
            source: Source::Generated { mod_path: mp.clone() },
            classified_op: OpKind::Update,
        },
    );
    let mut p4: Vec<ParamMeta> = Vec::new();
    p4.push(pm("id", String::from_str("&str")));
    fns.push(
        ApiFnMeta {
            name: String::from_str("delete"),
            doc: concat3("Delete a ", s, " by ID"),
            params: p4,
            return_type: String::from_str("()"),
            source: Source::Generated { mod_path: mp },
            classified_op: OpKind::Delete,
        },
    );
    let r = ApiModule { name: snake, fns, state_type: StateKind::Store };
    proof {
        let g = generated_module_v(*entity).1;
        let v = fn_metas_v(r.fns@);
        assert(v.len() == 5);
        assert(v[0].2 =~= g[0].2);
        assert(v[1].2 =~= g[1].2);
        assert(v[2].2 =~= g[2].2);
        assert(v[3].2 =~= g[3].2);
        assert(v[4].2 =~= g[4].2);
        assert(v[0] == g[0]);
        assert(v[1] == g[1]);
        assert(v[2] == g[2]);
        assert(v[3] == g[3]);
        assert(v[4] == g[4]);
    }
    assert(fn_metas_v(r.fns@) =~= generated_module_v(*entity).1);
    r
}

/// The generated modules' `mod.rs`.
pub open spec fn mod_rs_text(names: Seq<Seq<char>>) -> Seq<char>
    decreases names.len(),
{
    if names.len() == 0 {
        "//! Generated by ontogen. DO NOT EDIT.\n\n"@
    } else {
        mod_rs_text(names.drop_last()) + "pub mod "@ + names.last() + ";\n"@
    }
}

/// Generate the `mod.rs` declaring each generated module, in the order
/// given.
pub fn generate_mod_rs(mod_names: &Vec<String>) -> (r: String)
    ensures
        r@ == mod_rs_text(mod_names.deep_view()),
{
    let mut code = String::from_str("//! Generated by ontogen. DO NOT EDIT.\n\n");
    let ghost nv = mod_names.deep_view();
    let mut i: usize = 0;
    assert(nv.subrange(0, 0) =~= Seq::<Seq<char>>::empty());
    while i < mod_names.len()
        invariant
            i <= mod_names.len(),
            nv == mod_names.deep_view(),
            code@ == mod_rs_text(nv.subrange(0, i as int)),
        decreases mod_names.len() - i,
    {
        let ghost s = nv.subrange(0, i + 1);
        assert(s.drop_last() =~= nv.subrange(0, i as int));
        let mut line = String::from_str("pub mod ");
        line.append(mod_names[i].as_str());
        line.append(";\n");
        code.append(line.as_str());
        i = i + 1;
    }
    assert(nv.subrange(0, i as int) =~= nv);
    code
}

/// The entities the API layer generates modules for: those not excluded,
/// in order.
pub open spec fn api_entities(es: Seq<EntityDef>, exclude: Seq<Seq<char>>) -> Seq<EntityDef>
    decreases es.len(),
{
    if es.len() == 0 {
        Seq::empty()
    } else {
        let rest = api_entities(es.drop_last(), exclude);
        if exclude.contains(es.last().name@) {
            rest
        } else {
            rest.push(es.last())
        }
    }
}

/// The generated side of the API layer: one CRUD module per entity not
/// excluded, in entity order, and their module names sorted for `mod.rs`.
pub fn generated_modules(entities: &Vec<EntityDef>, exclude: &Vec<String>) -> (r: (Vec<ApiModule>, Vec<String>))
    ensures
        r.0@.len() == api_entities(entities@, exclude.deep_view()).len(),
        forall|i: int|
            0 <= i < r.0@.len() ==> {
                &&& (#[trigger] r.0@[i]).name@ == generated_module_v(api_entities(entities@, exclude.deep_view())[i]).0
                &&& fn_metas_v(r.0@[i].fns@) == generated_module_v(api_entities(entities@, exclude.deep_view())[i]).1
                &&& r.0@[i].state_type == StateKind::Store
            },
        sorted_strings(r.1@),
        r.1.deep_view() == sorted_spec(Seq::new(r.0@.len(), |i: int| r.0@[i].name@)),
{
    let mut modules: Vec<ApiModule> = Vec::new();
    let mut names: Vec<String> = Vec::new();
    let mut i: usize = 0;
    while i < entities.len()
        invariant
            i <= entities.len(),
            modules@.len() == api_entities(entities@.subrange(0, i as int), exclude.deep_view()).len(),
            forall|k: int|
                0 <= k < modules@.len() ==> {
                    &&& (#[trigger] modules@[k]).name@ == generated_module_v(
                        api_entities(entities@.subrange(0, i as int), exclude.deep_view())[k],
                    ).0
                    &&& fn_metas_v(modules@[k].fns@) == generated_module_v(
                        api_entities(entities@.subrange(0, i as int), exclude.deep_view())[k],
                    ).1
                    &&& modules@[k].state_type == StateKind::Store
                },
            names.deep_view() == Seq::new(modules@.len(), |k: int| modules@[k].name@),
        decreases entities.len() - i,
    {
        let ghost s = entities@.subrange(0, i + 1);
        assert(s.drop_last() =~= entities@.subrange(0, i as int));
        assert(s.last() == entities@[i as int]);
        let e = &entities[i];
        if !vec_contains_str(exclude, e.name.as_str()) {
            let m = collect_generated_module_meta(e);
            let ghost mb = modules@;
            let ghost nb = names.deep_view();
            let ghost mv = m;
            let nm = m.name.clone();
            assert(nm@ == mv.name@);
            names.push(nm);
            modules.push(m);
            assert(names.deep_view() =~= nb.push(mv.name@));
            assert(modules@ == mb.push(mv));
            assert(names.deep_view() =~= Seq::new(modules@.len(), |k: int| modules@[k].name@)) by {
                assert forall|k: int| 0 <= k < names.deep_view().len() implies names.deep_view()[k] == modules@[k].name@ by {
                    if k < mb.len() {
                        assert(modules@[k] == mb[k]);
                        assert(nb[k] == mb[k].name@);
                    }
                }
            }
            assert forall|k: int| 0 <= k < modules@.len() implies {
                &&& (#[trigger] modules@[k]).name@ == generated_module_v(api_entities(s, exclude.deep_view())[k]).0
                &&& fn_metas_v(modules@[k].fns@) == generated_module_v(api_entities(s, exclude.deep_view())[k]).1
                &&& modules@[k].state_type == StateKind::Store
            } by {
                if k < mb.len() {
                    assert(modules@[k] == mb[k]);
                }
            }
        }
        i = i + 1;
    }
    assert(entities@.subrange(0, i as int) =~= entities@);
    let ghost before = names.deep_view();
    sort_strings(&mut names);
    (modules, names)
}

} // verus!
