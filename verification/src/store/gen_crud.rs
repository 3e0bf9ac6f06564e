//! The SeaORM store's CRUD methods for an entity: `list`, `get`,
//! `create`, `update` and `delete`, plus relation population and the
//! `has_many` parent helper, all inside one `impl Store` block.

use vstd::prelude::*;

use crate::naming::{
    junction_source_col, junction_source_spec, junction_table_name, junction_table_spec, junction_target_col,
    junction_target_spec, plural_spec, pluralize, snake_spec, to_snake_case,
};
use crate::schema::model::{has_relations_spec, id_of, is_relation_of, EntityDef, FieldDef, FieldRole, RelationInfo, RelationKind};
use crate::schema::parse::opt_v;
use crate::text::{upper_char, split, split_exec, str_eq, upper_of_char, chars_of, string_of_range};

verus! {

// ─── Names ──────────────────────────────────────────────────────────────────

/// Map an entity name to its `AppError::*NotFound` variant.
pub fn not_found_variant(entity_name: &str) -> (r: String)
    ensures
        r@ == entity_name@ + "NotFound"@,
{
    let mut r = String::from_str(entity_name);
    r.append("NotFound");
    r
}

/// Map an entity name to its `EntityKind::*` variant.
pub fn entity_kind_variant(entity_name: &str) -> (r: String)
    ensures
        r@ == entity_name@,
{
    String::from_str(entity_name)
}

/// One `_`-separated part of a foreign key, capitalized.
pub open spec fn cap_part(p: Seq<char>) -> Seq<char> {
    if p.len() == 0 {
        Seq::empty()
    } else {
        upper_char(p[0]) + p.subrange(1, p.len() as int)
    }
}

/// The capitalized parts, concatenated.
pub open spec fn cap_parts(ps: Seq<Seq<char>>) -> Seq<char>
    decreases ps.len(),
{
    if ps.len() == 0 {
        Seq::empty()
    } else {
        cap_parts(ps.drop_last()) + cap_part(ps.last())
    }
}

/// Convert a snake_case foreign key to its SeaORM `Column` variant
/// (`parent_id` → `ParentId`).
pub fn fk_to_column_enum(fk: &str) -> (r: String)
    ensures
        r@ == cap_parts(split(fk@, "_"@)),
{
    proof {
        reveal_strlit("_");
    }
    let parts = split_exec(fk, "_");
    let ghost ps = parts.deep_view();
    let mut r = String::new();
    let mut i: usize = 0;
    assert(ps.subrange(0, 0) =~= Seq::<Seq<char>>::empty());
    while i < parts.len()
        invariant
            i <= parts.len(),
            parts.deep_view() == ps,
            ps == split(fk@, "_"@),
            r@ == cap_parts(ps.subrange(0, i as int)),
        decreases parts.len() - i,
    {
        let ghost s = ps.subrange(0, i + 1);
        assert(s.drop_last() =~= ps.subrange(0, i as int));
        assert(s.last() == ps[i as int]);
        let v = chars_of(parts[i].as_str());
        if v.len() > 0 {
            let up = upper_of_char(v[0]);
            r.append(up.as_str());
            let rest = string_of_range(&v, 1, v.len());
            r.append(rest.as_str());
        }
        i = i + 1;
    }
    assert(ps.subrange(0, i as int) =~= ps);
    r
}

// ─── Relation columns ───────────────────────────────────────────────────────

/// The junction table, source column and target column of a
/// `many_to_many` field of `e`.
pub open spec fn junction_cols(e: EntityDef, fname: Seq<char>, info: RelationInfo) -> (Seq<char>, Seq<char>, Seq<char>) {
    let snake = snake_spec(e.name@);
    (
        junction_table_spec(snake, fname, opt_v(info.junction)),
        junction_source_spec(snake),
        junction_target_spec(snake, snake_spec(info.target@), e.name@ == info.target@),
    )
}

/// The junction table, source column and target column of a
/// `many_to_many` field.
pub fn junction_cols_exec(e: &EntityDef, fname: &str, info: &RelationInfo) -> (r: (String, String, String))
    ensures
        (r.0@, r.1@, r.2@) == junction_cols(*e, fname@, *info),
{
    let snake = to_snake_case(e.name.as_str());
    let jt = match &info.junction {
        Some(j) => junction_table_name(snake.as_str(), fname, Some(j.as_str())),
        None => junction_table_name(snake.as_str(), fname, None),
    };
    let src = junction_source_col(snake.as_str());
    let target_snake = to_snake_case(info.target.as_str());
    let self_ref = str_eq(e.name.as_str(), info.target.as_str());
    let tgt = junction_target_col(snake.as_str(), target_snake.as_str(), self_ref);
    (jt, src, tgt)
}

/// A relation field of kind `k`, with its relation.
pub open spec fn rel_of(f: FieldDef, k: RelationKind) -> Option<RelationInfo> {
    match f.role {
        FieldRole::Relation(info) => if info.kind == k {
            Some(info)
        } else {
            None
        },
        _ => None,
    }
}

pub(crate) fn rel_of_exec(f: &FieldDef, k: RelationKind) -> (r: Option<&RelationInfo>)
    ensures
        match rel_of(*f, k) {
            Some(info) => r == Some(&info),
            None => r is None,
        },
{
    match &f.role {
        FieldRole::Relation(info) => if info.kind == k {
            Some(info)
        } else {
            None
        },
        _ => None,
    }
}

// ─── list / get ─────────────────────────────────────────────────────────────

/// The shared lines of a database error mapping.
pub open spec fn db_err() -> Seq<char> {
    "            .map_err(|e| AppError::DbError(e.to_string()))?"@
}

/// The `list_{plural}` method.
pub open spec fn list_text(e: EntityDef, has_relations: bool) -> Seq<char> {
    let name = e.name@;
    let snake = snake_spec(name);
    let plural = plural_spec(snake);
    "    pub async fn list_"@ + plural
        + "(&self, limit: Option<u64>, offset: Option<u64>) -> Result<Vec<"@ + name + ">, AppError> {\n"@
        + "        let mut query = "@ + snake + "::Entity::find();\n"@ + "        if let Some(l) = limit {\n"@
        + "            query = query.limit(l);\n"@ + "        }\n"@ + "        if let Some(o) = offset {\n"@
        + "            query = query.offset(o);\n"@ + "        }\n"@ + "        let models = query\n"@
        + "            .all(self.db())\n"@ + "            .await\n"@ + db_err() + ";\n\n"@ + if has_relations {
        "        let mut entities: Vec<"@ + name + "> = models.iter().map("@ + name + "::from_model).collect();\n"@
            + "        for entity in &mut entities {\n"@ + "            self.populate_"@ + snake
            + "_relations(entity).await?;\n"@ + "        }\n"@ + "        Ok(entities)\n"@
    } else {
        "        Ok(models.iter().map("@ + name + "::from_model).collect())\n"@
    } + "    }\n\n"@
}

/// Generate the `list_{plural}` method, with SQL-level pagination.
pub fn generate_list(code: &mut String, entity: &EntityDef, has_relations: bool)
    ensures
        final(code)@ == old(code)@ + list_text(*entity, has_relations),
{
    let name = entity.name.as_str();
    let snake = to_snake_case(name);
    let plural = pluralize(snake.as_str());
    let mut t = String::from_str("    pub async fn list_");
    t.append(plural.as_str());
    t.append("(&self, limit: Option<u64>, offset: Option<u64>) -> Result<Vec<");
    t.append(name);
    t.append(">, AppError> {\n");
    t.append("        let mut query = ");
    t.append(snake.as_str());
    t.append("::Entity::find();\n");
    t.append("        if let Some(l) = limit {\n");
    t.append("            query = query.limit(l);\n");
    t.append("        }\n");
    t.append("        if let Some(o) = offset {\n");
    t.append("            query = query.offset(o);\n");
    t.append("        }\n");
    t.append("        let models = query\n");
    t.append("            .all(self.db())\n");
    t.append("            .await\n");
    t.append("            .map_err(|e| AppError::DbError(e.to_string()))?");
    t.append(";\n\n");
    let tail = if has_relations {
        let mut u = String::from_str("        let mut entities: Vec<");
        u.append(name);
        u.append("> = models.iter().map(");
        u.append(name);
        u.append("::from_model).collect();\n");
        u.append("        for entity in &mut entities {\n");
        u.append("            self.populate_");
        u.append(snake.as_str());
        u.append("_relations(entity).await?;\n");
        u.append("        }\n");
        u.append("        Ok(entities)\n");
        u
    } else {
        let mut u = String::from_str("        Ok(models.iter().map(");
        u.append(name);
        u.append("::from_model).collect())\n");
        u
    };
    t.append(tail.as_str());
    t.append("    }\n\n");
    code.append(t.as_str());
}

/// The lines that fetch a model by id or fail with the entity's not-found
/// error.
pub open spec fn fetch_lines(var: Seq<char>, snake: Seq<char>, name: Seq<char>) -> Seq<char> {
    "        let "@ + var + " = "@ + snake + "::Entity::find_by_id(id)\n"@ + "            .one(self.db())\n"@
        + "            .await\n"@ + db_err() + "\n"@ + "            .ok_or_else(|| AppError::"@ + name
        + "NotFound(id.to_string()))?;\n\n"@
}

fn fetch_exec(code: &mut String, var: &str, snake: &str, name: &str)
    ensures
        final(code)@ == old(code)@ + fetch_lines(var@, snake@, name@),
{
    let mut t = String::from_str("        let ");
    t.append(var);
    t.append(" = ");
    t.append(snake);
    t.append("::Entity::find_by_id(id)\n");
    t.append("            .one(self.db())\n");
    t.append("            .await\n");
    t.append("            .map_err(|e| AppError::DbError(e.to_string()))?");
    t.append("\n");
    t.append("            .ok_or_else(|| AppError::");
    t.append(name);
    t.append("NotFound(id.to_string()))?;\n\n");
    code.append(t.as_str());
}

/// The `get_{snake}` method.
pub open spec fn get_text(e: EntityDef, has_relations: bool) -> Seq<char> {
    let name = e.name@;
    let snake = snake_spec(name);
    "    pub async fn get_"@ + snake + "(&self, id: &str) -> Result<"@ + name + ", AppError> {\n"@ + fetch_lines(
        "model"@,
        snake,
        name,
    ) + if has_relations {
        "        let mut entity = "@ + name + "::from_model(&model);\n"@ + "        self.populate_"@ + snake
            + "_relations(&mut entity).await?;\n"@ + "        Ok(entity)\n"@
    } else {
        "        Ok("@ + name + "::from_model(&model))\n"@
    } + "    }\n\n"@
}

/// Generate the `get_{snake}` method.
pub fn generate_get(code: &mut String, entity: &EntityDef, has_relations: bool)
    ensures
        final(code)@ == old(code)@ + get_text(*entity, has_relations),
{
    let name = entity.name.as_str();
    let snake = to_snake_case(name);
    let mut t = String::from_str("    pub async fn get_");
    t.append(snake.as_str());
    t.append("(&self, id: &str) -> Result<");
    t.append(name);
    t.append(", AppError> {\n");
    fetch_exec(&mut t, "model", snake.as_str(), name);
    let tail = if has_relations {
        let mut u = String::from_str("        let mut entity = ");
        u.append(name);
        u.append("::from_model(&model);\n");
        u.append("        self.populate_");
        u.append(snake.as_str());
        u.append("_relations(&mut entity).await?;\n");
        u.append("        Ok(entity)\n");
        u
    } else {
        let mut u = String::from_str("        Ok(");
        u.append(name);
        u.append("::from_model(&model))\n");
        u
    };
    t.append(tail.as_str());
    t.append("    }\n\n");
    code.append(t.as_str());
}

// ─── Per-relation lines ─────────────────────────────────────────────────────

/// For each relation field of kind `k`: `{prefix}{field}{mid}{field}{suffix}`.
pub open spec fn rel_field_lines(fs: Seq<FieldDef>, k: RelationKind, prefix: Seq<char>, mid: Seq<char>, suffix: Seq<char>) -> Seq<
    char,
>
    decreases fs.len(),
{
    if fs.len() == 0 {
        Seq::empty()
    } else {
        let f = fs.last();
        rel_field_lines(fs.drop_last(), k, prefix, mid, suffix) + if rel_of(f, k) is Some {
            prefix + f.name@ + mid + f.name@ + suffix
        } else {
            Seq::empty()
        }
    }
}

pub(crate) fn rel_field_lines_exec(code: &mut String, fs: &Vec<FieldDef>, k: RelationKind, prefix: &str, mid: &str, suffix: &str)
    ensures
        final(code)@ == old(code)@ + rel_field_lines(fs@, k, prefix@, mid@, suffix@),
{
    let ghost head = code@;
    let mut i: usize = 0;
    assert(fs@.subrange(0, 0) =~= Seq::<FieldDef>::empty());
    assert(head =~= head + rel_field_lines(fs@.subrange(0, 0), k, prefix@, mid@, suffix@));
    while i < fs.len()
        invariant
            i <= fs.len(),
            head == old(code)@,
            code@ == head + rel_field_lines(fs@.subrange(0, i as int), k, prefix@, mid@, suffix@),
        decreases fs.len() - i,
    {
        let f = &fs[i];
        let ghost s = fs@.subrange(0, i + 1);
        assert(s.drop_last() =~= fs@.subrange(0, i as int));
        assert(s.last() == *f);
        if rel_of_exec(f, k).is_some() {
            let mut line = String::from_str(prefix);
            line.append(f.name.as_str());
            line.append(mid);
            line.append(f.name.as_str());
            line.append(suffix);
            code.append(line.as_str());
        }
        i = i + 1;
    }
    assert(fs@.subrange(0, i as int) =~= fs@);
}

/// For each `many_to_many` field: its junction sync line; `ids` is the
/// expression of the entity id, `current` the prefix of the field's value.
pub open spec fn sync_lines(e: EntityDef, fs: Seq<FieldDef>, indent: Seq<char>, ids: Seq<char>, current: Seq<char>, guarded: bool) -> Seq<
    char,
>
    decreases fs.len(),
{
    if fs.len() == 0 {
        Seq::empty()
    } else {
        let f = fs.last();
        sync_lines(e, fs.drop_last(), indent, ids, current, guarded) + match rel_of(f, RelationKind::ManyToMany) {
            Some(info) => {
                let (jt, src, tgt) = junction_cols(e, f.name@, info);
                let call = indent + "self.sync_junction(\""@ + jt + "\", \""@ + src + "\", \""@ + tgt + "\", "@
                    + ids + ", &"@ + current + f.name@ + ").await?;\n"@;
                if guarded {
                    "        if "@ + f.name@ + "_changed {\n"@ + call + "        }\n"@
                } else {
                    call
                }
            },
            None => Seq::empty(),
        }
    }
}

fn sync_lines_exec(code: &mut String, e: &EntityDef, indent: &str, ids: &str, current: &str, guarded: bool)
    ensures
        final(code)@ == old(code)@ + sync_lines(*e, e.fields@, indent@, ids@, current@, guarded),
{
    let fs = &e.fields;
    let ghost head = code@;
    let mut i: usize = 0;
    assert(fs@.subrange(0, 0) =~= Seq::<FieldDef>::empty());
    assert(head =~= head + sync_lines(*e, fs@.subrange(0, 0), indent@, ids@, current@, guarded));
    while i < fs.len()
        invariant
            i <= fs.len(),
            *fs == e.fields,
            head == old(code)@,
            code@ == head + sync_lines(*e, fs@.subrange(0, i as int), indent@, ids@, current@, guarded),
        decreases fs.len() - i,
    {
        let f = &fs[i];
        let ghost s = fs@.subrange(0, i + 1);
        assert(s.drop_last() =~= fs@.subrange(0, i as int));
        assert(s.last() == *f);
        match rel_of_exec(f, RelationKind::ManyToMany) {
            Some(info) => {
                let (jt, src, tgt) = junction_cols_exec(e, f.name.as_str(), info);
                let mut call = String::from_str(indent);
                call.append("self.sync_junction(\"");
                call.append(jt.as_str());
                call.append("\", \"");
                call.append(src.as_str());
                call.append("\", \"");
                call.append(tgt.as_str());
                call.append("\", ");
                call.append(ids);
                call.append(", &");
                call.append(current);
                call.append(f.name.as_str());
                call.append(").await?;\n");
                let piece = if guarded {
                    let mut g = String::from_str("        if ");
                    g.append(f.name.as_str());
                    g.append("_changed {\n");
                    g.append(call.as_str());
                    g.append("        }\n");
                    g
                } else {
                    call
                };
                code.append(piece.as_str());
            },
            None => {},
        }
        i = i + 1;
    }
    assert(fs@.subrange(0, i as int) =~= fs@);
}

/// For each `has_many` field with a foreign key: the loop setting each
/// child's parent.
pub open spec fn parent_lines(fs: Seq<FieldDef>, snake: Seq<char>, ids: Seq<char>, current: Seq<char>, guarded: bool) -> Seq<
    char,
>
    decreases fs.len(),
{
    if fs.len() == 0 {
        Seq::empty()
    } else {
        let f = fs.last();
        parent_lines(fs.drop_last(), snake, ids, current, guarded) + match rel_of(f, RelationKind::HasMany) {
            Some(info) => if info.foreign_key is Some {
                if guarded {
                    "        if "@ + f.name@ + "_changed {\n"@ + "            for child_id in &"@ + current + f.name@
                        + " {\n"@ + "                self.set_"@ + snake + "_parent(child_id, Some("@ + ids
                        + ")).await?;\n"@ + "            }\n"@ + "        }\n"@
                } else {
                    "        for child_id in &"@ + current + f.name@ + " {\n"@ + "            self.set_"@ + snake
                        + "_parent(child_id, Some("@ + ids + ")).await?;\n"@ + "        }\n"@
                }
            } else {
                Seq::empty()
            },
            None => Seq::empty(),
        }
    }
}

fn parent_lines_exec(code: &mut String, fs: &Vec<FieldDef>, snake: &str, ids: &str, current: &str, guarded: bool)
    ensures
        final(code)@ == old(code)@ + parent_lines(fs@, snake@, ids@, current@, guarded),
{
    let ghost head = code@;
    let mut i: usize = 0;
    assert(fs@.subrange(0, 0) =~= Seq::<FieldDef>::empty());
    assert(head =~= head + parent_lines(fs@.subrange(0, 0), snake@, ids@, current@, guarded));
    while i < fs.len()
        invariant
            i <= fs.len(),
            head == old(code)@,
            code@ == head + parent_lines(fs@.subrange(0, i as int), snake@, ids@, current@, guarded),
        decreases fs.len() - i,
    {
        let f = &fs[i];
        let ghost s = fs@.subrange(0, i + 1);
        assert(s.drop_last() =~= fs@.subrange(0, i as int));
        assert(s.last() == *f);
        match rel_of_exec(f, RelationKind::HasMany) {
            Some(info) => {
                if info.foreign_key.is_some() {
                    let piece = if guarded {
                        let mut g = String::from_str("        if ");
                        g.append(f.name.as_str());
                        g.append("_changed {\n");
                        g.append("            for child_id in &");
                        g.append(current);
                        g.append(f.name.as_str());
                        g.append(" {\n");
                        g.append("                self.set_");
                        g.append(snake);
                        g.append("_parent(child_id, Some(");
                        g.append(ids);
                        g.append(")).await?;\n");
                        g.append("            }\n");
                        g.append("        }\n");
                        g
                    } else {
                        let mut g = String::from_str("        for child_id in &");
                        g.append(current);
                        g.append(f.name.as_str());
                        g.append(" {\n");
                        g.append("            self.set_");
                        g.append(snake);
                        g.append("_parent(child_id, Some(");
                        g.append(ids);
                        g.append(")).await?;\n");
                        g.append("        }\n");
                        g
                    };
                    code.append(piece.as_str());
                }
            },
            None => {},
        }
        i = i + 1;
    }
    assert(fs@.subrange(0, i as int) =~= fs@);
}

// ─── create / update / delete ───────────────────────────────────────────────

/// The `create_{snake}` method.
pub open spec fn create_text(e: EntityDef, has_relations: bool) -> Seq<char> {
    let name = e.name@;
    let snake = snake_spec(name);
    let fs = e.fields@;
    "    pub async fn create_"@ + snake + "(&self, mut "@ + snake + ": "@ + name + ") -> Result<"@ + name
        + ", AppError> {\n"@ + "        hooks::before_create(self, &mut "@ + snake + ").await?;\n\n"@
        + "        let id = "@ + snake + ".id.clone();\n"@ + rel_field_lines(
        fs,
        RelationKind::ManyToMany,
        "        let "@,
        " = "@ + snake + "."@,
        ".clone();\n"@,
    ) + rel_field_lines(fs, RelationKind::HasMany, "        let "@, " = "@ + snake + "."@, ".clone();\n"@)
        + "        let active = "@ + snake + ".to_active_model();\n\n"@ + "        active\n"@
        + "            .insert(self.db())\n"@ + "            .await\n"@ + db_err() + ";\n\n"@ + sync_lines(
        e,
        fs,
        "        "@,
        "&id"@,
        ""@,
        false,
    ) + parent_lines(fs, snake, "&id"@, ""@, false) + (if has_relations {
        "\n"@
    } else {
        ""@
    }) + "        let created = self.get_"@ + snake + "(&id).await?;\n"@
        + "        self.emit_change(ChangeOp::Created, EntityKind::"@ + name + ", id);\n\n"@
        + "        hooks::after_create(self, &created).await?;\n"@ + "        Ok(created)\n"@ + "    }\n\n"@
}

/// Generate the `create_{snake}` method: the before/after hooks, the
/// insert, junction syncs, has-many parent updates and the change event.
pub fn generate_create(code: &mut String, entity: &EntityDef, has_relations: bool)
    ensures
        final(code)@ == old(code)@ + create_text(*entity, has_relations),
{
    let name = entity.name.as_str();
    let snake = to_snake_case(name);
    let s = snake.as_str();
    let mut mid = String::from_str(" = ");
    mid.append(s);
    mid.append(".");
    let mut t = String::from_str("    pub async fn create_");
    t.append(s);
    t.append("(&self, mut ");
    t.append(s);
    t.append(": ");
    t.append(name);
    t.append(") -> Result<");
    t.append(name);
    t.append(", AppError> {\n");
    t.append("        hooks::before_create(self, &mut ");
    t.append(s);
    t.append(").await?;\n\n");
    t.append("        let id = ");
    t.append(s);
    t.append(".id.clone();\n");
    rel_field_lines_exec(&mut t, &entity.fields, RelationKind::ManyToMany, "        let ", mid.as_str(), ".clone();\n");
    rel_field_lines_exec(&mut t, &entity.fields, RelationKind::HasMany, "        let ", mid.as_str(), ".clone();\n");
    t.append("        let active = ");
    t.append(s);
    t.append(".to_active_model();\n\n");
    t.append("        active\n");
    t.append("            .insert(self.db())\n");
    t.append("            .await\n");
    t.append("            .map_err(|e| AppError::DbError(e.to_string()))?");
    t.append(";\n\n");
    sync_lines_exec(&mut t, entity, "        ", "&id", "", false);
    parent_lines_exec(&mut t, &entity.fields, s, "&id", "", false);
    if has_relations {
        t.append("\n");
    } else {
        t.append("");
    }
    t.append("        let created = self.get_");
    t.append(s);
    t.append("(&id).await?;\n");
    t.append("        self.emit_change(ChangeOp::Created, EntityKind::");
    t.append(name);
    t.append(", id);\n\n");
    t.append("        hooks::after_create(self, &created).await?;\n");
    t.append("        Ok(created)\n");
    t.append("    }\n\n");
    code.append(t.as_str());
}

/// The `update_{snake}` method.
pub open spec fn update_text(e: EntityDef, has_relations: bool) -> Seq<char> {
    let name = e.name@;
    let snake = snake_spec(name);
    let fs = e.fields@;
    let any_rel = has_relations_spec(e);
    "    pub async fn update_"@ + snake + "(&self, id: &str, updates: "@ + name + "Update) -> Result<"@ + name
        + ", AppError> {\n"@ + fetch_lines("existing_model"@, snake, name) + "        let mut current = "@ + name
        + "::from_model(&existing_model);\n"@ + (if has_relations {
        "        self.populate_"@ + snake + "_relations(&mut current).await?;\n\n"@
    } else {
        ""@
    }) + "        hooks::before_update(self, &current, &updates).await?;\n\n"@ + rel_field_lines(
        fs,
        RelationKind::ManyToMany,
        "        let "@,
        "_changed = updates."@,
        ".is_some();\n"@,
    ) + rel_field_lines(fs, RelationKind::HasMany, "        let "@, "_changed = updates."@, ".is_some();\n"@)
        + (if any_rel {
        "\n"@
    } else {
        ""@
    }) + "        updates.apply(&mut current);\n\n"@ + "        let active = current.to_active_model();\n"@
        + "        active\n"@ + "            .update(self.db())\n"@ + "            .await\n"@ + db_err() + ";\n\n"@
        + sync_lines(e, fs, "            "@, "id"@, "current."@, true) + parent_lines(
        fs,
        snake,
        "id"@,
        "current."@,
        true,
    ) + (if any_rel {
        "\n"@
    } else {
        ""@
    }) + "        let result = self.get_"@ + snake + "(id).await?;\n"@
        + "        self.emit_change(ChangeOp::Updated, EntityKind::"@ + name + ", id.to_string());\n\n"@
        + "        hooks::after_update(self, &result).await?;\n"@ + "        Ok(result)\n"@ + "    }\n\n"@
}

/// Generate the `update_{snake}` method: fetch, hooks, patch, re-persist,
/// and re-sync only the relations the patch changed.
pub fn generate_update(code: &mut String, entity: &EntityDef, has_relations: bool)
    ensures
        final(code)@ == old(code)@ + update_text(*entity, has_relations),
{
    let name = entity.name.as_str();
    let snake = to_snake_case(name);
    let s = snake.as_str();
    let any_rel = entity.has_relations();
    let mut t = String::from_str("    pub async fn update_");
    t.append(s);
    t.append("(&self, id: &str, updates: ");
    t.append(name);
    t.append("Update) -> Result<");
    t.append(name);
    t.append(", AppError> {\n");
    fetch_exec(&mut t, "existing_model", s, name);
    t.append("        let mut current = ");
    t.append(name);
    t.append("::from_model(&existing_model);\n");
    if has_relations {
        let mut u = String::from_str("        self.populate_");
        u.append(s);
        u.append("_relations(&mut current).await?;\n\n");
        t.append(u.as_str());
    } else {
        t.append("");
    }
    t.append("        hooks::before_update(self, &current, &updates).await?;\n\n");
    rel_field_lines_exec(&mut t, &entity.fields, RelationKind::ManyToMany, "        let ", "_changed = updates.", ".is_some();\n");
    rel_field_lines_exec(&mut t, &entity.fields, RelationKind::HasMany, "        let ", "_changed = updates.", ".is_some();\n");
    if any_rel {
        t.append("\n");
    } else {
        t.append("");
    }
    t.append("        updates.apply(&mut current);\n\n");
    t.append("        let active = current.to_active_model();\n");
    t.append("        active\n");
    t.append("            .update(self.db())\n");
    t.append("            .await\n");
    t.append("            .map_err(|e| AppError::DbError(e.to_string()))?");
    t.append(";\n\n");
    sync_lines_exec(&mut t, entity, "            ", "id", "current.", true);
    parent_lines_exec(&mut t, &entity.fields, s, "id", "current.", true);
    if any_rel {
        t.append("\n");
    } else {
        t.append("");
    }
    t.append("        let result = self.get_");
    t.append(s);
    t.append("(id).await?;\n");
    t.append("        self.emit_change(ChangeOp::Updated, EntityKind::");
    t.append(name);
    t.append(", id.to_string());\n\n");
    t.append("        hooks::after_update(self, &result).await?;\n");
    t.append("        Ok(result)\n");
    t.append("    }\n\n");
    code.append(t.as_str());
}

/// The `delete_{snake}` method.
pub open spec fn delete_text(e: EntityDef) -> Seq<char> {
    let name = e.name@;
    let snake = snake_spec(name);
    "    pub async fn delete_"@ + snake + "(&self, id: &str) -> Result<(), AppError> {\n"@
        + "        hooks::before_delete(self, id).await?;\n\n"@ + fetch_lines("existing"@, snake, name)
        + "        let active: "@ + snake + "::ActiveModel = existing.into();\n"@ + "        active\n"@
        + "            .delete(self.db())\n"@ + "            .await\n"@ + db_err() + ";\n\n"@
        + "        self.emit_change(ChangeOp::Deleted, EntityKind::"@ + name + ", id.to_string());\n\n"@
        + "        hooks::after_delete(self, id).await?;\n"@ + "        Ok(())\n"@ + "    }\n\n"@
}

/// Generate the `delete_{snake}` method.
pub fn generate_delete(code: &mut String, entity: &EntityDef)
    ensures
        final(code)@ == old(code)@ + delete_text(*entity),
{
    let name = entity.name.as_str();
    let snake = to_snake_case(name);
    let s = snake.as_str();
    let mut t = String::from_str("    pub async fn delete_");
    t.append(s);
    t.append("(&self, id: &str) -> Result<(), AppError> {\n");
    t.append("        hooks::before_delete(self, id).await?;\n\n");
    fetch_exec(&mut t, "existing", s, name);
    t.append("        let active: ");
    t.append(s);
    t.append("::ActiveModel = existing.into();\n");
    t.append("        active\n");
    t.append("            .delete(self.db())\n");
    t.append("            .await\n");
    t.append("            .map_err(|e| AppError::DbError(e.to_string()))?");
    t.append(";\n\n");
    t.append("        self.emit_change(ChangeOp::Deleted, EntityKind::");
    t.append(name);
    t.append(", id.to_string());\n\n");
    t.append("        hooks::after_delete(self, id).await?;\n");
    t.append("        Ok(())\n");
    t.append("    }\n\n");
    code.append(t.as_str());
}

// ─── populate_relations / set_parent ────────────────────────────────────────

/// The statement loading a `has_many` field's child ids.
pub open spec fn has_many_load(snake: Seq<char>, fname: Seq<char>, target_snake: Seq<char>, fk_col: Seq<char>) -> Seq<char> {
    "        "@ + snake + "."@ + fname + " = {\n"@ + "            use crate::persistence::db::entities::"@
        + target_snake + ";\n"@ + "            let children = "@ + target_snake + "::Entity::find()\n"@
        + "                .filter("@ + target_snake + "::Column::"@ + fk_col + ".eq(&"@ + snake + ".id))\n"@
        + "                .all(self.db())\n"@ + "                .await\n"@
        + "                .map_err(|e| crate::schema::AppError::DbError(e.to_string()))?;\n"@
        + "            children.into_iter().map(|m| m.id).collect()\n"@ + "        };\n"@
}

/// The `has_many` loads of `populate_{snake}_relations`.
pub open spec fn has_many_loads(fs: Seq<FieldDef>, snake: Seq<char>) -> Seq<char>
    decreases fs.len(),
{
    if fs.len() == 0 {
        Seq::empty()
    } else {
        let f = fs.last();
        has_many_loads(fs.drop_last(), snake) + match rel_of(f, RelationKind::HasMany) {
            Some(info) => match info.foreign_key {
                Some(fk) => has_many_load(snake, f.name@, snake_spec(info.target@), cap_parts(split(fk@, "_"@))),
                None => Seq::empty(),
            },
            None => Seq::empty(),
        }
    }
}

/// The `many_to_many` loads of `populate_{snake}_relations`.
pub open spec fn junction_loads(e: EntityDef, fs: Seq<FieldDef>, snake: Seq<char>) -> Seq<char>
    decreases fs.len(),
{
    if fs.len() == 0 {
        Seq::empty()
    } else {
        let f = fs.last();
        junction_loads(e, fs.drop_last(), snake) + match rel_of(f, RelationKind::ManyToMany) {
            Some(info) => {
                let (jt, src, tgt) = junction_cols(e, f.name@, info);
                "        "@ + snake + "."@ + f.name@ + " = self\n            .load_junction_ids(\""@ + jt + "\", \""@
                    + src + "\", \""@ + tgt + "\", &"@ + snake + ".id)\n            .await?;\n"@
            },
            None => Seq::empty(),
        }
    }
}

/// The `populate_{snake}_relations` method.
pub open spec fn populate_text(e: EntityDef) -> Seq<char> {
    let name = e.name@;
    let snake = snake_spec(name);
    "    pub(crate) async fn populate_"@ + snake + "_relations(\n"@ + "        &self,\n        "@ + snake
        + ": &mut crate::schema::"@ + name + ",\n"@ + "    ) -> Result<(), crate::schema::AppError> {\n"@
        + has_many_loads(e.fields@, snake) + junction_loads(e, e.fields@, snake) + "        Ok(())\n"@ + "    }\n\n"@
}

fn has_many_loads_exec(code: &mut String, fs: &Vec<FieldDef>, snake: &str)
    ensures
        final(code)@ == old(code)@ + has_many_loads(fs@, snake@),
{
    proof {
        reveal_strlit("_");
    }
    let ghost head = code@;
    let mut i: usize = 0;
    assert(fs@.subrange(0, 0) =~= Seq::<FieldDef>::empty());
    assert(head =~= head + has_many_loads(fs@.subrange(0, 0), snake@));
    while i < fs.len()
        invariant
            i <= fs.len(),
            head == old(code)@,
            code@ == head + has_many_loads(fs@.subrange(0, i as int), snake@),
        decreases fs.len() - i,
    {
        let f = &fs[i];
        let ghost s = fs@.subrange(0, i + 1);
        assert(s.drop_last() =~= fs@.subrange(0, i as int));
        assert(s.last() == *f);
        match rel_of_exec(f, RelationKind::HasMany) {
            Some(info) => match &info.foreign_key {
                Some(fk) => {
                    let ts = to_snake_case(info.target.as_str());
                    let col = fk_to_column_enum(fk.as_str());
                    let mut t = String::from_str("        ");
                    t.append(snake);
                    t.append(".");
                    t.append(f.name.as_str());
                    t.append(" = {\n");
                    t.append("            use crate::persistence::db::entities::");
                    t.append(ts.as_str());
                    t.append(";\n");
                    t.append("            let children = ");
                    t.append(ts.as_str());
                    t.append("::Entity::find()\n");
                    t.append("                .filter(");
                    t.append(ts.as_str());
                    t.append("::Column::");
                    t.append(col.as_str());
                    t.append(".eq(&");
                    t.append(snake);
                    t.append(".id))\n");
                    t.append("                .all(self.db())\n");
                    t.append("                .await\n");
                    t.append("                .map_err(|e| crate::schema::AppError::DbError(e.to_string()))?;\n");
                    t.append("            children.into_iter().map(|m| m.id).collect()\n");
                    t.append("        };\n");
                    code.append(t.as_str());
                },
                None => {},
            },
            None => {},
        }
        i = i + 1;
    }
    assert(fs@.subrange(0, i as int) =~= fs@);
}

fn junction_loads_exec(code: &mut String, e: &EntityDef, snake: &str)
    ensures
        final(code)@ == old(code)@ + junction_loads(*e, e.fields@, snake@),
{
    let fs = &e.fields;
    let ghost head = code@;
    let mut i: usize = 0;
    assert(fs@.subrange(0, 0) =~= Seq::<FieldDef>::empty());
    assert(head =~= head + junction_loads(*e, fs@.subrange(0, 0), snake@));
    while i < fs.len()
        invariant
            i <= fs.len(),
            *fs == e.fields,
            head == old(code)@,
            code@ == head + junction_loads(*e, fs@.subrange(0, i as int), snake@),
        decreases fs.len() - i,
    {
        let f = &fs[i];
        let ghost s = fs@.subrange(0, i + 1);
        assert(s.drop_last() =~= fs@.subrange(0, i as int));
        assert(s.last() == *f);
        match rel_of_exec(f, RelationKind::ManyToMany) {
            Some(info) => {
                let (jt, src, tgt) = junction_cols_exec(e, f.name.as_str(), info);
                let mut t = String::from_str("        ");
                t.append(snake);
                t.append(".");
                t.append(f.name.as_str());
                t.append(" = self\n            .load_junction_ids(\"");
                t.append(jt.as_str());
                t.append("\", \"");
                t.append(src.as_str());
                t.append("\", \"");
                t.append(tgt.as_str());
                t.append("\", &");
                t.append(snake);
                t.append(".id)\n            .await?;\n");
                code.append(t.as_str());
            },
            None => {},
        }
        i = i + 1;
    }
    assert(fs@.subrange(0, i as int) =~= fs@);
}

/// Generate `populate_{snake}_relations`: load `has_many` child ids and
/// `many_to_many` junction ids into the entity.
pub fn generate_populate_relations(code: &mut String, entity: &EntityDef)
    ensures
        final(code)@ == old(code)@ + populate_text(*entity),
{
    let name = entity.name.as_str();
    let snake = to_snake_case(name);
    let s = snake.as_str();
    let mut t = String::from_str("    pub(crate) async fn populate_");
    t.append(s);
    t.append("_relations(\n");
    t.append("        &self,\n        ");
    t.append(s);
    t.append(": &mut crate::schema::");
    t.append(name);
    t.append(",\n");
    t.append("    ) -> Result<(), crate::schema::AppError> {\n");
    has_many_loads_exec(&mut t, &entity.fields, s);
    junction_loads_exec(&mut t, entity, s);
    t.append("        Ok(())\n");
    t.append("    }\n\n");
    code.append(t.as_str());
}

/// The `set_{snake}_parent` helper for a `has_many` foreign key.
pub open spec fn set_parent_text(e: EntityDef, fk: Seq<char>) -> Seq<char> {
    let snake = snake_spec(e.name@);
    "    async fn set_"@ + snake + "_parent(\n"@ + "        &self,\n"@ + "        child_id: &str,\n"@
        + "        parent_id: Option<&str>,\n"@ + "    ) -> Result<(), AppError> {\n"@
        + "        use sea_orm::{ConnectionTrait, Value};\n"@
        + "        let stmt = sea_orm::Statement::from_sql_and_values(\n"@
        + "            sea_orm::DatabaseBackend::Sqlite,\n"@ + "            \"UPDATE "@ + e.table@ + " SET "@ + fk
        + " = ? WHERE id = ?\",\n"@ + "            [\n"@ + "                parent_id\n"@
        + "                    .map(|p| Value::from(p.to_string()))\n"@
        + "                    .unwrap_or(Value::String(None)),\n"@ + "                Value::from(child_id.to_string()),\n"@
        + "            ],\n"@ + "        );\n"@ + "        self.db()\n"@ + "            .execute_raw(stmt)\n"@
        + "            .await\n"@ + "            .map_err(|e| AppError::DbError(e.to_string()))?;\n"@
        + "        Ok(())\n"@ + "    }\n\n"@
}

/// Generate the `set_{snake}_parent` helper that points a child's foreign
/// key at its parent.
pub fn generate_set_parent_helper(code: &mut String, entity: &EntityDef, fk: &str)
    ensures
        final(code)@ == old(code)@ + set_parent_text(*entity, fk@),
{
    let snake = to_snake_case(entity.name.as_str());
    let mut t = String::from_str("    async fn set_");
    t.append(snake.as_str());
    t.append("_parent(\n");
    t.append("        &self,\n");
    t.append("        child_id: &str,\n");
    t.append("        parent_id: Option<&str>,\n");
    t.append("    ) -> Result<(), AppError> {\n");
    t.append("        use sea_orm::{ConnectionTrait, Value};\n");
    t.append("        let stmt = sea_orm::Statement::from_sql_and_values(\n");
    t.append("            sea_orm::DatabaseBackend::Sqlite,\n");
    t.append("            \"UPDATE ");
    t.append(entity.table.as_str());
    t.append(" SET ");
    t.append(fk);
    t.append(" = ? WHERE id = ?\",\n");
    t.append("            [\n");
    t.append("                parent_id\n");
    t.append("                    .map(|p| Value::from(p.to_string()))\n");
    t.append("                    .unwrap_or(Value::String(None)),\n");
    t.append("                Value::from(child_id.to_string()),\n");
    t.append("            ],\n");
    t.append("        );\n");
    t.append("        self.db()\n");
    t.append("            .execute_raw(stmt)\n");
    t.append("            .await\n");
    t.append("            .map_err(|e| AppError::DbError(e.to_string()))?;\n");
    t.append("        Ok(())\n");
    t.append("    }\n\n");
    code.append(t.as_str());
}

/// One `set_{snake}_parent` helper per `has_many` field with a foreign key.
pub open spec fn set_parent_helpers(e: EntityDef, fs: Seq<FieldDef>) -> Seq<char>
    decreases fs.len(),
{
    if fs.len() == 0 {
        Seq::empty()
    } else {
        set_parent_helpers(e, fs.drop_last()) + match rel_of(fs.last(), RelationKind::HasMany) {
            Some(info) => match info.foreign_key {
                Some(fk) => set_parent_text(e, fk@),
                None => Seq::empty(),
            },
            None => Seq::empty(),
        }
    }
}

/// The complete `impl Store` block of an entity.
pub open spec fn crud_impl_text(e: EntityDef) -> Seq<char> {
    let hr = has_relations_spec(e);
    "impl Store {\n"@ + list_text(e, hr) + get_text(e, hr) + create_text(e, hr) + update_text(e, hr) + delete_text(e)
        + (if hr {
        populate_text(e)
    } else {
        ""@
    }) + set_parent_helpers(e, e.fields@) + "}\n"@
}

/// Generate the complete `impl Store { ... }` block with the CRUD methods;
/// entities with junction or has-many relations also get relation
/// population and parent helpers.
pub fn generate_crud_impl(code: &mut String, entity: &EntityDef)
    ensures
        final(code)@ == old(code)@ + crud_impl_text(*entity),
{
    let hr = entity.has_relations();
    let mut t = String::from_str("impl Store {\n");
    generate_list(&mut t, entity, hr);
    generate_get(&mut t, entity, hr);
    generate_create(&mut t, entity, hr);
    generate_update(&mut t, entity, hr);
    generate_delete(&mut t, entity);
    if hr {
        generate_populate_relations(&mut t, entity);
    } else {
        t.append("");
    }
    let fs = &entity.fields;
    let ghost head = t@;
    let mut i: usize = 0;
    assert(fs@.subrange(0, 0) =~= Seq::<FieldDef>::empty());
    assert(head =~= head + set_parent_helpers(*entity, fs@.subrange(0, 0)));
    while i < fs.len()
        invariant
            i <= fs.len(),
            *fs == entity.fields,
            t@ == head + set_parent_helpers(*entity, fs@.subrange(0, i as int)),
        decreases fs.len() - i,
    {
        let f = &fs[i];
        let ghost s = fs@.subrange(0, i + 1);
        assert(s.drop_last() =~= fs@.subrange(0, i as int));
        assert(s.last() == *f);
        match rel_of_exec(f, RelationKind::HasMany) {
            Some(info) => match &info.foreign_key {
                Some(fk) => {
                    let mut h = String::new();
                    generate_set_parent_helper(&mut h, entity, fk.as_str());
                    assert(h@ =~= set_parent_text(*entity, fk@));
                    t.append(h.as_str());
                },
                None => {},
            },
            None => {},
        }
        i = i + 1;
    }
    assert(fs@.subrange(0, i as int) =~= fs@);
    t.append("}\n");
    code.append(t.as_str());
}

// ─── The SeaORM backend ─────────────────────────────────────────────────────

/// How a backend treats wikilink-shaped ids in input DTOs.
#[derive(Debug, Clone, Copy, PartialEq, Eq, Structural)]
pub enum WikilinkPolicy {
    /// Relation ids are stripped of `[[...]]` on the way in.
    Strip,
    /// Relation ids pass through unchanged.
    Passthrough,
}

/// The SeaORM store backend.
#[derive(Debug, Clone, Copy)]
pub struct SeaormBackend;

/// The SeaORM preamble of an entity's store module: the `sea_orm` traits it
/// uses (`QueryOrder` only when the entity has an id to order by, the
/// filter traits only with a `has_many` relation) and its entity module.
pub open spec fn seaorm_preamble(e: EntityDef) -> Seq<char> {
    "use sea_orm::{ActiveModelTrait, EntityTrait, PaginatorTrait"@ + (if id_of(e) is Some {
        ", QueryOrder"@
    } else {
        ""@
    }) + ", QuerySelect};\n\n"@ + (if crate::store::markdown::any_has_many(e.fields@) {
        "use sea_orm::{ColumnTrait, QueryFilter};\n"@
    } else {
        ""@
    }) + "use crate::persistence::db::entities::"@ + snake_spec(e.name@) + ";\n"@
}

impl SeaormBackend {
    /// Emit the persistence-layer `use` lines of an entity's store module.
    pub fn emit_preamble(&self, code: &mut String, entity: &EntityDef)
        ensures
            final(code)@ == old(code)@ + seaorm_preamble(*entity),
    {
        let snake = to_snake_case(entity.name.as_str());
        let mut t = String::from_str("use sea_orm::{ActiveModelTrait, EntityTrait, PaginatorTrait");
        if entity.id_field().is_some() {
            t.append(", QueryOrder");
        } else {
            t.append("");
        }
        t.append(", QuerySelect};\n\n");
        if crate::store::markdown::has_many_any(&entity.fields) {
            t.append("use sea_orm::{ColumnTrait, QueryFilter};\n");
        } else {
            t.append("");
        }
        t.append("use crate::persistence::db::entities::");
        t.append(snake.as_str());
        t.append(";\n");
        code.append(t.as_str());
    }

    /// Emit the complete `impl Store { ... }` block of an entity.
    pub fn emit_crud_impl(&self, code: &mut String, entity: &EntityDef)
        ensures
            final(code)@ == old(code)@ + crud_impl_text(*entity),
    {
        generate_crud_impl(code, entity);
    }

    /// SQL stores never carried wikilink-shaped ids: they pass through.
    pub fn wikilink_policy(&self) -> (r: WikilinkPolicy)
        ensures
            r == WikilinkPolicy::Passthrough,
    {
        WikilinkPolicy::Passthrough
    }
}

/// The backend the store generator is wired to: SeaORM.
pub fn active() -> (r: SeaormBackend)
    ensures
        r == SeaormBackend,
{
    SeaormBackend
}

} // verus!
