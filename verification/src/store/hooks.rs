//! Lifecycle hook scaffolding: one hook file per entity, written once and
//! never overwritten, and the hooks `mod.rs` that declares them.

use vstd::prelude::*;

use crate::naming::{snake_spec, to_snake_case};
use crate::order::{sorted_spec, lex_le, sort_strings, sorted_strings};
use crate::schema::model::EntityDef;
use crate::servers::types::vec_contains_str;

verus! {

/// The scaffolded hook file of an entity: no-op lifecycle hooks.
pub open spec fn hook_file_text(e: EntityDef) -> Seq<char> {
    let name = e.name@;
    let snake = snake_spec(name);
    "//! Lifecycle hooks for "@ + name + ".\n"@ + "//!\n"@
        + "//! This file was scaffolded by ontogen. It is yours to edit.\n"@
        + "//! Fill in hook bodies with custom logic (validation, side effects, etc.).\n"@
        + "//! This file is NEVER overwritten by the generator.\n\n"@
        + "#![allow(unused_variables, clippy::unnecessary_wraps, clippy::unused_async)]\n\n"@
        + "use crate::schema::{"@ + name + ", AppError};\n"@ + "use crate::store::Store;\n"@
        + "use crate::store::generated::"@ + snake + "::"@ + name + "Update;\n\n"@ + "/// Called before a "@ + snake
        + " is inserted. Modify the entity or return Err to reject.\n"@
        + "pub async fn before_create(_store: &Store, _"@ + snake + ": &mut "@ + name
        + ") -> Result<(), AppError> {\n"@ + "    Ok(())\n"@ + "}\n\n"@ + "/// Called after a "@ + snake
        + " is successfully created.\n"@ + "pub async fn after_create(_store: &Store, _"@ + snake + ": &"@ + name
        + ") -> Result<(), AppError> {\n"@ + "    Ok(())\n"@ + "}\n\n"@ + "/// Called before a "@ + snake
        + " is updated. Receives current state and pending changes.\n"@
        + "pub async fn before_update(\n    _store: &Store,\n    _current: &"@ + name + ",\n    _updates: &"@ + name
        + "Update,\n) -> Result<(), AppError> {\n"@ + "    Ok(())\n"@ + "}\n\n"@ + "/// Called after a "@ + snake
        + " is successfully updated.\n"@ + "pub async fn after_update(_store: &Store, _"@ + snake + ": &"@ + name
        + ") -> Result<(), AppError> {\n"@ + "    Ok(())\n"@ + "}\n\n"@ + "/// Called before a "@ + snake
        + " is deleted.\n"@ + "pub async fn before_delete(_store: &Store, _id: &str) -> Result<(), AppError> {\n"@
        + "    Ok(())\n"@ + "}\n\n"@ + "/// Called after a "@ + snake + " is successfully deleted.\n"@
        + "pub async fn after_delete(_store: &Store, _id: &str) -> Result<(), AppError> {\n"@ + "    Ok(())\n"@
        + "}\n"@
}

/// Generate the scaffold hook file of an entity.
pub fn generate_hook_file(entity: &EntityDef) -> (r: String)
    ensures
        r@ == hook_file_text(*entity),
{
    let name = entity.name.as_str();
    let snake = to_snake_case(name);
    let s = snake.as_str();
    let mut t = String::from_str("//! Lifecycle hooks for ");
    t.append(name);
    t.append(".\n");
    t.append("//!\n");
    t.append("//! This file was scaffolded by ontogen. It is yours to edit.\n");
    t.append("//! Fill in hook bodies with custom logic (validation, side effects, etc.).\n");
    t.append("//! This file is NEVER overwritten by the generator.\n\n");
    t.append("#![allow(unused_variables, clippy::unnecessary_wraps, clippy::unused_async)]\n\n");
    t.append("use crate::schema::{");
    t.append(name);
    t.append(", AppError};\n");
    t.append("use crate::store::Store;\n");
    t.append("use crate::store::generated::");
    t.append(s);
    t.append("::");
    t.append(name);
    t.append("Update;\n\n");
    t.append("/// Called before a ");
    t.append(s);
    t.append(" is inserted. Modify the entity or return Err to reject.\n");
    t.append("pub async fn before_create(_store: &Store, _");
    t.append(s);
    t.append(": &mut ");
    t.append(name);
    t.append(") -> Result<(), AppError> {\n");
    t.append("    Ok(())\n");
    t.append("}\n\n");
    t.append("/// Called after a ");
    t.append(s);
    t.append(" is successfully created.\n");
    t.append("pub async fn after_create(_store: &Store, _");
    t.append(s);
    t.append(": &");
    t.append(name);
    t.append(") -> Result<(), AppError> {\n");
    t.append("    Ok(())\n");
    t.append("}\n\n");
    t.append("/// Called before a ");
    t.append(s);
    t.append(" is updated. Receives current state and pending changes.\n");
    t.append("pub async fn before_update(\n    _store: &Store,\n    _current: &");
    t.append(name);
    t.append(",\n    _updates: &");
    t.append(name);
    t.append("Update,\n) -> Result<(), AppError> {\n");
    t.append("    Ok(())\n");
    t.append("}\n\n");
    t.append("/// Called after a ");
    t.append(s);
    t.append(" is successfully updated.\n");
    t.append("pub async fn after_update(_store: &Store, _");
    t.append(s);
    t.append(": &");
    t.append(name);
    t.append(") -> Result<(), AppError> {\n");
    t.append("    Ok(())\n");
    t.append("}\n\n");
    t.append("/// Called before a ");
    t.append(s);
    t.append(" is deleted.\n");
    t.append("pub async fn before_delete(_store: &Store, _id: &str) -> Result<(), AppError> {\n");
    t.append("    Ok(())\n");
    t.append("}\n\n");
    t.append("/// Called after a ");
    t.append(s);
    t.append(" is successfully deleted.\n");
    t.append("pub async fn after_delete(_store: &Store, _id: &str) -> Result<(), AppError> {\n");
    t.append("    Ok(())\n");
    t.append("}\n");
    t
}

/// The snake_case names of the entities, in order.
pub open spec fn snakes(es: Seq<EntityDef>) -> Seq<Seq<char>> {
    Seq::new(es.len(), |i: int| snake_spec(es[i].name@))
}

/// The `pub mod` lines of the names whose hook files exist.
pub open spec fn mod_lines(names: Seq<Seq<char>>, present: Seq<Seq<char>>) -> Seq<char>
    decreases names.len(),
{
    if names.len() == 0 {
        Seq::empty()
    } else {
        mod_lines(names.drop_last(), present) + if present.contains(names.last()) {
            "pub mod "@ + names.last() + ";\n"@
        } else {
            Seq::empty()
        }
    }
}

/// The views are in lexicographic order.
pub open spec fn sorted_views(s: Seq<Seq<char>>) -> bool {
    forall|i: int, j: int| 0 <= i < j < s.len() ==> #[trigger] lex_le(s[i], s[j])
}

/// The hooks `mod.rs` header.
pub open spec fn hooks_mod_header() -> Seq<char> {
    "//! Hook modules — regenerated each build to track entities.\n"@
        + "//! Each module file is scaffolded once and never overwritten.\n\n"@
}

/// Generate the hooks `mod.rs`: a `pub mod` line for each entity, in
/// sorted order, whose hook file exists (`present` names the hook modules
/// whose files exist).
pub fn generate_hooks_mod_rs(entities: &Vec<EntityDef>, present: &Vec<String>) -> (r: String)
    ensures
        r@ == hooks_mod_header() + mod_lines(sorted_spec(snakes(entities@)), present.deep_view()),
        sorted_views(sorted_spec(snakes(entities@))),
        sorted_spec(snakes(entities@)).to_multiset() == snakes(entities@).to_multiset(),
{
    let mut names: Vec<String> = Vec::new();
    let mut i: usize = 0;
    while i < entities.len()
        invariant
            i <= entities.len(),
            names.deep_view() == snakes(entities@.subrange(0, i as int)),
        decreases entities.len() - i,
    {
        let n = to_snake_case(entities[i].name.as_str());
        let ghost before = names.deep_view();
        names.push(n);
        assert(names.deep_view() =~= before.push(snake_spec(entities@[i as int].name@)));
        assert(snakes(entities@.subrange(0, i + 1)) =~= snakes(entities@.subrange(0, i as int)).push(
            snake_spec(entities@[i as int].name@),
        ));
        i = i + 1;
    }
    assert(entities@.subrange(0, i as int) =~= entities@);
    sort_strings(&mut names);
    let ghost nv = names.deep_view();
    assert(sorted_views(nv)) by {
        assert forall|a: int, b: int| 0 <= a < b < nv.len() implies #[trigger] lex_le(nv[a], nv[b]) by {
            assert(lex_le(names@[a]@, names@[b]@));
        }
    }
    let mut t = String::from_str("//! Hook modules — regenerated each build to track entities.\n");
    t.append("//! Each module file is scaffolded once and never overwritten.\n\n");
    let ghost head = t@;
    let mut k: usize = 0;
    assert(nv.subrange(0, 0) =~= Seq::<Seq<char>>::empty());
    assert(head =~= head + mod_lines(nv.subrange(0, 0), present.deep_view()));
    while k < names.len()
        invariant
            k <= names.len(),
            nv == names.deep_view(),
            t@ == head + mod_lines(nv.subrange(0, k as int), present.deep_view()),
        decreases names.len() - k,
    {
        let ghost s = nv.subrange(0, k + 1);
        assert(s.drop_last() =~= nv.subrange(0, k as int));
        assert(s.last() == nv[k as int]);
        if vec_contains_str(present, names[k].as_str()) {
            let mut line = String::from_str("pub mod ");
            line.append(names[k].as_str());
            line.append(";\n");
            t.append(line.as_str());
        }
        k = k + 1;
    }
    assert(nv.subrange(0, k as int) =~= nv);
    t
}

/// The hook files scaffolding creates, given the hook modules whose files
/// exist: each entity whose file is missing, in entity order, once.
pub open spec fn to_create(es: Seq<EntityDef>, present: Seq<Seq<char>>) -> Seq<Seq<char>>
    decreases es.len(),
{
    if es.len() == 0 {
        Seq::empty()
    } else {
        let before = to_create(es.drop_last(), present);
        let n = snake_spec(es.last().name@);
        if present.contains(n) || before.contains(n) {
            before
        } else {
            before.push(n)
        }
    }
}

/// Decide which hook files to scaffold: for each entity whose hook module
/// is not among `present` (the files that exist), its name and file text,
/// in entity order; an entity sharing a name with an earlier one gets no
/// second file.
#[verifier::rlimit(40)]
#[verifier::spinoff_prover]
pub fn plan_hook_files(entities: &Vec<EntityDef>, present: &Vec<String>) -> (r: Vec<(String, String)>)
    ensures
        Seq::new(r@.len(), |i: int| r@[i].0@) == to_create(entities@, present.deep_view()),
        forall|i: int|
            0 <= i < r@.len() ==> exists|k: int|
                0 <= k < entities@.len() && snake_spec(entities@[k].name@) == (#[trigger] r@[i]).0@ && r@[i].1@
                    == hook_file_text(entities@[k]),
{
    let mut r: Vec<(String, String)> = Vec::new();
    let mut made: Vec<String> = Vec::new();
    let mut i: usize = 0;
    while i < entities.len()
        invariant
            i <= entities.len(),
            made.deep_view() == Seq::new(r@.len(), |j: int| r@[j].0@),
            made.deep_view() == to_create(entities@.subrange(0, i as int), present.deep_view()),
            forall|j: int|
                0 <= j < r@.len() ==> exists|k: int|
                    0 <= k < entities@.len() && snake_spec(entities@[k].name@) == (#[trigger] r@[j]).0@ && r@[j].1@
                        == hook_file_text(entities@[k]),
        decreases entities.len() - i,
    {
        let ghost s = entities@.subrange(0, i + 1);
        assert(s.drop_last() =~= entities@.subrange(0, i as int));
        assert(s.last() == entities@[i as int]);
        let e = &entities[i];
        let n = to_snake_case(e.name.as_str());
        if !vec_contains_str(present, n.as_str()) && !vec_contains_str(&made, n.as_str()) {
            let code = generate_hook_file(e);
            let ghost rb = r@;
            let ghost mb = made.deep_view();
            made.push(n.clone());
            r.push((n, code));
            assert(made.deep_view() =~= mb.push(snake_spec(e.name@)));
            assert(Seq::new(r@.len(), |j: int| r@[j].0@) =~= Seq::new(rb.len(), |j: int| rb[j].0@).push(
                snake_spec(e.name@),
            ));
            assert forall|j: int| 0 <= j < r@.len() implies exists|k: int|
                0 <= k < entities@.len() && snake_spec(entities@[k].name@) == (#[trigger] r@[j]).0@ && r@[j].1@
                    == hook_file_text(entities@[k]) by {
                if j < rb.len() {
                    assert(r@[j] == rb[j]);
                } else {
                    assert(snake_spec(entities@[i as int].name@) == r@[j].0@);
                }
            }
        }
        i = i + 1;
    }
    assert(entities@.subrange(0, i as int) =~= entities@);
    r
}

/// The never-overwrite law of hook scaffolding: no hook file that exists
/// is planned again, no name is planned twice, and afterwards every entity
/// has its hook file.
pub proof fn law_hooks_never_overwritten(es: Seq<EntityDef>, present: Seq<Seq<char>>)
    ensures
        forall|i: int| 0 <= i < to_create(es, present).len() ==> !present.contains(#[trigger] to_create(es, present)[i]),
        to_create(es, present).no_duplicates(),
        forall|k: int|
            0 <= k < es.len() ==> present.contains(#[trigger] snake_spec(es[k].name@)) || to_create(
                es,
                present,
            ).contains(snake_spec(es[k].name@)),
    decreases es.len(),
{
    if es.len() > 0 {
        let d = es.drop_last();
        law_hooks_never_overwritten(d, present);
        let before = to_create(d, present);
        let n = snake_spec(es.last().name@);
        let now = to_create(es, present);
        if !(present.contains(n) || before.contains(n)) {
            assert(now == before.push(n));
            assert(now[now.len() - 1] == n);
            assert forall|k: int| 0 <= k < es.len() implies present.contains(#[trigger] snake_spec(es[k].name@))
                || now.contains(snake_spec(es[k].name@)) by {
                if k < d.len() {
                    assert(es[k] == d[k]);
                    if before.contains(snake_spec(es[k].name@)) {
                        let w = choose|w: int| 0 <= w < before.len() && before[w] == snake_spec(es[k].name@);
                        assert(now[w] == before[w]);
                    }
                } else {
                    assert(now.contains(n));
                }
            }
            assert forall|i: int| 0 <= i < now.len() implies !present.contains(#[trigger] now[i]) by {
                if i < before.len() {
                    assert(now[i] == before[i]);
                }
            }
        } else {
            assert forall|k: int| 0 <= k < es.len() implies present.contains(#[trigger] snake_spec(es[k].name@))
                || now.contains(snake_spec(es[k].name@)) by {
                if k < d.len() {
                    assert(es[k] == d[k]);
                }
            }
        }
    }
}

} // verus!
