//! The markdown store backend: CRUD methods over the `markdown-store`
//! vault, with the same method signatures, hook call sites, `*_changed`
//! tracking and change events as the SeaORM backend; only the persistence
//! primitives differ.

use vstd::prelude::*;

use crate::ir::{IdStrategy, MarkdownIoOutput};
use crate::naming::{plural_spec, pluralize, snake_spec, to_snake_case};
use crate::schema::model::{body_of, has_relations_spec, EntityDef, FieldDef, FieldType, RelationKind};
use crate::store::gen_crud::{rel_field_lines, rel_of, rel_of_exec};
use crate::text::{str_eq, str_upper, upper_exec};

verus! {

// ─── Shared snippets ────────────────────────────────────────────────────────

/// `{name}Frontmatter`.
pub fn fm_type(name: &str) -> (r: String)
    ensures
        r@ == name@ + "Frontmatter"@,
{
    let mut r = String::from_str(name);
    r.append("Frontmatter");
    r
}

/// The frontmatter field list constant: `{SNAKE}_FM_FIELDS`.
pub open spec fn fields_const_spec(snake: Seq<char>) -> Seq<char> {
    str_upper(snake) + "_FM_FIELDS"@
}

/// The frontmatter field list constant: `{SNAKE}_FM_FIELDS`.
pub fn fields_const(snake: &str) -> (r: String)
    ensures
        r@ == fields_const_spec(snake@),
{
    let mut r = upper_exec(snake);
    r.append("_FM_FIELDS");
    r
}

/// The directory constant: `{PLURAL}_DIR`.
pub open spec fn dir_const_spec(snake: Seq<char>) -> Seq<char> {
    str_upper(plural_spec(snake)) + "_DIR"@
}

/// The directory constant: `{PLURAL}_DIR`.
pub fn dir_const(snake: &str) -> (r: String)
    ensures
        r@ == dir_const_spec(snake@),
{
    let p = pluralize(snake);
    let mut r = upper_exec(p.as_str());
    r.append("_DIR");
    r
}

/// The `into_{snake}` call: bodyful entities thread the document body
/// through; bodyless entities take only the id.
pub open spec fn into_call_spec(snake: Seq<char>, e: EntityDef, id_expr: Seq<char>, doc_var: Seq<char>) -> Seq<char> {
    if body_of(e) is Some {
        "fm.into_"@ + snake + "("@ + id_expr + ", "@ + doc_var + ".body().to_string())"@
    } else {
        "fm.into_"@ + snake + "("@ + id_expr + ")"@
    }
}

/// The `into_{snake}` call.
pub fn into_call(snake: &str, entity: &EntityDef, id_expr: &str, doc_var: &str) -> (r: String)
    ensures
        r@ == into_call_spec(snake@, *entity, id_expr@, doc_var@),
{
    let mut r = String::from_str("fm.into_");
    r.append(snake);
    r.append("(");
    r.append(id_expr);
    if entity.body_field().is_some() {
        r.append(", ");
        r.append(doc_var);
        r.append(".body().to_string())");
    } else {
        r.append(")");
    }
    r
}

/// The slug-source argument of `create_record_derived`.
pub open spec fn slug_expr_spec(snake: Seq<char>, slug_source: Option<Seq<char>>) -> Seq<char> {
    match slug_source {
        Some(field) => "Some("@ + snake + "."@ + field + ".as_str())"@,
        None => "None"@,
    }
}

/// The slug-source argument for `create_record_derived`: `None` when the
/// id strategy doesn't slug.
pub fn slug_source_expr(snake: &str, slug_source: Option<&str>) -> (r: String)
    ensures
        r@ == slug_expr_spec(
            snake@,
            match slug_source {
                Some(s) => Some(s@),
                None => None,
            },
        ),
{
    match slug_source {
        Some(field) => {
            let mut r = String::from_str("Some(");
            r.append(snake);
            r.append(".");
            r.append(field);
            r.append(".as_str())");
            r
        },
        None => String::from_str("None"),
    }
}

// ─── Per-field pieces ───────────────────────────────────────────────────────

/// The per-field pieces of the markdown methods.
#[derive(Clone, Copy, PartialEq, Eq, Structural)]
pub enum Piece {
    /// `create`: set each child's parent.
    CreateParent,
    /// `update`: re-point changed children.
    UpdateParent,
    /// `populate`: collect the ids of children pointing back here.
    Load,
    /// The `set_{snake}_parent` helper.
    Helper,
}

/// The `has_many` foreign key of a field, if it has one.
pub open spec fn hm_fk(f: FieldDef) -> Option<Seq<char>> {
    match rel_of(f, RelationKind::HasMany) {
        Some(info) => match info.foreign_key {
            Some(fk) => Some(fk@),
            None => None,
        },
        None => None,
    }
}

/// One piece for a `has_many` field with foreign key `fk`.
pub open spec fn piece_text(k: Piece, e: EntityDef, fname: Seq<char>, fk: Seq<char>) -> Seq<char> {
    let name = e.name@;
    let snake = snake_spec(name);
    let dir = dir_const_spec(snake);
    let fm = name + "Frontmatter"@;
    match k {
        Piece::CreateParent => "        for child_id in &"@ + fname + " {\n"@ + "            self.set_"@ + snake
            + "_parent(child_id, Some(&id)).await?;\n"@ + "        }\n\n"@,
        Piece::UpdateParent => "        if "@ + fname + "_changed {\n"@ + "            if let Some("@ + fname
            + ") = &updates."@ + fname + " {\n"@ + "                for child_id in "@ + fname + " {\n"@
            + "                    self.set_"@ + snake + "_parent(child_id, Some(id)).await?;\n"@
            + "                }\n"@ + "            }\n"@ + "        }\n"@,
        Piece::Load => "        let mut "@ + fname + " = Vec::new();\n"@
            + "        for (child_id, doc) in self.vault().read_all("@ + dir + ").map_err(AppError::from)? {\n"@
            + "            if child_id == "@ + snake + ".id {\n"@ + "                continue;\n"@ + "            }\n"@
            + "            let child: "@ + fm + " = doc.deserialize().map_err(AppError::from)?;\n"@
            + "            if markdown_store::wikilink::strip_opt(child."@ + fk + ").as_deref() == Some("@ + snake
            + ".id.as_str()) {\n"@ + "                "@ + fname + ".push(child_id);\n"@ + "            }\n"@
            + "        }\n"@ + "        "@ + snake + "."@ + fname + " = "@ + fname + ";\n"@,
        Piece::Helper => "    async fn set_"@ + snake + "_parent(\n"@ + "        &self,\n"@ + "        child_id: &str,\n"@
            + "        parent_id: Option<&str>,\n"@ + "    ) -> Result<(), AppError> {\n"@ + "        self.vault()\n"@
            + "            .modify_record("@ + dir + ", child_id, |doc| {\n"@ + "                let mut fm: "@ + fm
            + " = doc.deserialize()?;\n"@ + "                fm."@ + fk
            + " = parent_id.map(markdown_store::wikilink::encode);\n"@ + "                doc.merge_serialize(&fm, "@
            + fields_const_spec(snake) + ")\n"@ + "            })\n"@ + "            .map_err(AppError::from)\n"@
            + "    }\n\n"@,
    }
}

/// The pieces of every `has_many` field with a foreign key, in order.
pub open spec fn pieces(k: Piece, e: EntityDef, fs: Seq<FieldDef>) -> Seq<char>
    decreases fs.len(),
{
    if fs.len() == 0 {
        Seq::empty()
    } else {
        pieces(k, e, fs.drop_last()) + match hm_fk(fs.last()) {
            Some(fk) => piece_text(k, e, fs.last().name@, fk),
            None => Seq::empty(),
        }
    }
}

fn piece_exec(k: Piece, e: &EntityDef, fname: &str, fk: &str) -> (r: String)
    ensures
        r@ == piece_text(k, *e, fname@, fk@),
{
    let name = e.name.as_str();
    let snake = to_snake_case(name);
    let s = snake.as_str();
    let dir = dir_const(s);
    let fm = fm_type(name);
    match k {
        Piece::CreateParent => {
            let mut t = String::from_str("        for child_id in &");
            t.append(fname);
            t.append(" {\n");
            t.append("            self.set_");
            t.append(s);
            t.append("_parent(child_id, Some(&id)).await?;\n");
            t.append("        }\n\n");
            t
        },
        Piece::UpdateParent => {
            let mut t = String::from_str("        if ");
            t.append(fname);
            t.append("_changed {\n");
            t.append("            if let Some(");
            t.append(fname);
            t.append(") = &updates.");
            t.append(fname);
            t.append(" {\n");
            t.append("                for child_id in ");
            t.append(fname);
            t.append(" {\n");
            t.append("                    self.set_");
            t.append(s);
            t.append("_parent(child_id, Some(id)).await?;\n");
            t.append("                }\n");
            t.append("            }\n");
            t.append("        }\n");
            t
        },
        Piece::Load => {
            let mut t = String::from_str("        let mut ");
            t.append(fname);
            t.append(" = Vec::new();\n");
            t.append("        for (child_id, doc) in self.vault().read_all(");
            t.append(dir.as_str());
            t.append(").map_err(AppError::from)? {\n");
            t.append("            if child_id == ");
            t.append(s);
            t.append(".id {\n");
            t.append("                continue;\n");
            t.append("            }\n");
            t.append("            let child: ");
            t.append(fm.as_str());
            t.append(" = doc.deserialize().map_err(AppError::from)?;\n");
            t.append("            if markdown_store::wikilink::strip_opt(child.");
            t.append(fk);
            t.append(").as_deref() == Some(");
            t.append(s);
            t.append(".id.as_str()) {\n");
            t.append("                ");
            t.append(fname);
            t.append(".push(child_id);\n");
            t.append("            }\n");
            t.append("        }\n");
            t.append("        ");
            t.append(s);
            t.append(".");
            t.append(fname);
            t.append(" = ");
            t.append(fname);
            t.append(";\n");
            t
        },
        Piece::Helper => {
            let fields = fields_const(s);
            let mut t = String::from_str("    async fn set_");
            t.append(s);
            t.append("_parent(\n");
            t.append("        &self,\n");
            t.append("        child_id: &str,\n");
            t.append("        parent_id: Option<&str>,\n");
            t.append("    ) -> Result<(), AppError> {\n");
            t.append("        self.vault()\n");
            t.append("            .modify_record(");
            t.append(dir.as_str());
            t.append(", child_id, |doc| {\n");
            t.append("                let mut fm: ");
            t.append(fm.as_str());
            t.append(" = doc.deserialize()?;\n");
            t.append("                fm.");
            t.append(fk);
            t.append(" = parent_id.map(markdown_store::wikilink::encode);\n");
            t.append("                doc.merge_serialize(&fm, ");
            t.append(fields.as_str());
            t.append(")\n");
            t.append("            })\n");
            t.append("            .map_err(AppError::from)\n");
            t.append("    }\n\n");
            t
        },
    }
}

fn pieces_exec(code: &mut String, k: Piece, e: &EntityDef)
    ensures
        final(code)@ == old(code)@ + pieces(k, *e, e.fields@),
{
    let fs = &e.fields;
    let ghost head = code@;
    let mut i: usize = 0;
    assert(fs@.subrange(0, 0) =~= Seq::<FieldDef>::empty());
    assert(head =~= head + pieces(k, *e, fs@.subrange(0, 0)));
    while i < fs.len()
        invariant
            i <= fs.len(),
            *fs == e.fields,
            head == old(code)@,
            code@ == head + pieces(k, *e, fs@.subrange(0, i as int)),
        decreases fs.len() - i,
    {
        let f = &fs[i];
        let ghost s = fs@.subrange(0, i + 1);
        assert(s.drop_last() =~= fs@.subrange(0, i as int));
        assert(s.last() == *f);
        match rel_of_exec(f, RelationKind::HasMany) {
            Some(info) => match &info.foreign_key {
                Some(fk) => {
                    let t = piece_exec(k, e, f.name.as_str(), fk.as_str());
                    code.append(t.as_str());
                },
                None => {},
            },
            None => {},
        }
        i = i + 1;
    }
    assert(fs@.subrange(0, i as int) =~= fs@);
}

/// Some field is a `has_many` relation.
pub open spec fn any_has_many(fs: Seq<FieldDef>) -> bool {
    exists|i: int| 0 <= i < fs.len() && #[trigger] rel_of(fs[i], RelationKind::HasMany) is Some
}

/// Some field is a `has_many` relation with a foreign key.
pub open spec fn any_has_many_fk(fs: Seq<FieldDef>) -> bool {
    exists|i: int| 0 <= i < fs.len() && #[trigger] hm_fk(fs[i]) is Some
}

/// Whether some field is a `has_many` relation.
pub fn has_many_any(fs: &Vec<FieldDef>) -> (b: bool)
    ensures
        b == any_has_many(fs@),
{
    has_many_flags(fs).0
}

fn has_many_flags(fs: &Vec<FieldDef>) -> (r: (bool, bool))
    ensures
        r.0 == any_has_many(fs@),
        r.1 == any_has_many_fk(fs@),
{
    let mut a = false;
    let mut b = false;
    let mut i: usize = 0;
    while i < fs.len()
        invariant
            i <= fs.len(),
            a == exists|k: int| 0 <= k < i && #[trigger] rel_of(fs@[k], RelationKind::HasMany) is Some,
            b == exists|k: int| 0 <= k < i && #[trigger] hm_fk(fs@[k]) is Some,
        decreases fs.len() - i,
    {
        match rel_of_exec(&fs[i], RelationKind::HasMany) {
            Some(info) => {
                a = true;
                if info.foreign_key.is_some() {
                    assert(hm_fk(fs@[i as int]) is Some);
                    b = true;
                } else {
                    assert(hm_fk(fs@[i as int]) is None);
                }
            },
            None => {
                assert(hm_fk(fs@[i as int]) is None);
            },
        }
        i = i + 1;
    }
    (a, b)
}

// ─── Methods ────────────────────────────────────────────────────────────────

/// The markdown `list_{plural}` method.
pub open spec fn md_list_text(e: EntityDef, has_relations: bool) -> Seq<char> {
    let name = e.name@;
    let snake = snake_spec(name);
    let plural = plural_spec(snake);
    let dir = dir_const_spec(snake);
    "    pub async fn list_"@ + plural + "(&self, limit: Option<u64>, offset: Option<u64>) -> Result<Vec<"@ + name
        + ">, AppError> {\n"@ + "        let mut "@ + plural + " = Vec::new();\n"@
        + "        for (id, doc) in self.vault().read_all("@ + dir + ").map_err(AppError::from)? {\n"@
        + "            let fm: "@ + name + "Frontmatter"@ + " = doc.deserialize().map_err(AppError::from)?;\n"@
        + "            "@ + plural + ".push("@ + into_call_spec(snake, e, "id"@, "doc"@) + ");\n"@ + "        }\n"@
        + "        let offset = offset.unwrap_or(0) as usize;\n"@
        + "        let limit = limit.map(|l| l as usize).unwrap_or(usize::MAX);\n"@ + (if has_relations {
        "        let mut "@ + plural + ": Vec<"@ + name + "> = "@ + plural
            + ".into_iter().skip(offset).take(limit).collect();\n"@ + "        for entity in &mut "@ + plural + " {\n"@
            + "            self.populate_"@ + snake + "_relations(entity).await?;\n"@ + "        }\n"@ + "        Ok("@
            + plural + ")\n"@
    } else {
        "        Ok("@ + plural + ".into_iter().skip(offset).take(limit).collect())\n"@
    }) + "    }\n\n"@
}

/// Generate the markdown `list_{plural}` method: read every record, then
/// page in memory.
pub fn generate_list(code: &mut String, entity: &EntityDef, has_relations: bool)
    ensures
        final(code)@ == old(code)@ + md_list_text(*entity, has_relations),
{
    let name = entity.name.as_str();
    let snake = to_snake_case(name);
    let s = snake.as_str();
    let plural = pluralize(s);
    let p = plural.as_str();
    let dir = dir_const(s);
    let call = into_call(s, entity, "id", "doc");
    let mut t = String::from_str("    pub async fn list_");
    t.append(p);
    t.append("(&self, limit: Option<u64>, offset: Option<u64>) -> Result<Vec<");
    t.append(name);
    t.append(">, AppError> {\n");
    t.append("        let mut ");
    t.append(p);
    t.append(" = Vec::new();\n");
    t.append("        for (id, doc) in self.vault().read_all(");
    t.append(dir.as_str());
    t.append(").map_err(AppError::from)? {\n");
    t.append("            let fm: ");
    t.append(name);
    t.append("Frontmatter");
    t.append(" = doc.deserialize().map_err(AppError::from)?;\n");
    t.append("            ");
    t.append(p);
    t.append(".push(");
    t.append(call.as_str());
    t.append(");\n");
    t.append("        }\n");
    t.append("        let offset = offset.unwrap_or(0) as usize;\n");
    t.append("        let limit = limit.map(|l| l as usize).unwrap_or(usize::MAX);\n");
    let tail = if has_relations {
        let mut u = String::from_str("        let mut ");
        u.append(p);
        u.append(": Vec<");
        u.append(name);
        u.append("> = ");
        u.append(p);
        u.append(".into_iter().skip(offset).take(limit).collect();\n");
        u.append("        for entity in &mut ");
        u.append(p);
        u.append(" {\n");
        u.append("            self.populate_");
        u.append(s);
        u.append("_relations(entity).await?;\n");
        u.append("        }\n");
        u.append("        Ok(");
        u.append(p);
        u.append(")\n");
        u
    } else {
        let mut u = String::from_str("        Ok(");
        u.append(p);
        u.append(".into_iter().skip(offset).take(limit).collect())\n");
        u
    };
    t.append(tail.as_str());
    t.append("    }\n\n");
    code.append(t.as_str());
}

/// The markdown `get_{snake}` method.
pub open spec fn md_get_text(e: EntityDef, has_relations: bool) -> Seq<char> {
    let name = e.name@;
    let snake = snake_spec(name);
    let dir = dir_const_spec(snake);
    let call = into_call_spec(snake, e, "id.to_string()"@, "doc"@);
    "    pub async fn get_"@ + snake + "(&self, id: &str) -> Result<"@ + name + ", AppError> {\n"@
        + "        let doc = self\n"@ + "            .vault()\n"@ + "            .read_record_opt("@ + dir + ", id)\n"@
        + "            .map_err(AppError::from)?\n"@ + "            .ok_or_else(|| AppError::"@ + name
        + "NotFound(id.to_string()))?;\n"@ + "        let fm: "@ + name + "Frontmatter"@
        + " = doc.deserialize().map_err(AppError::from)?;\n"@ + (if has_relations {
        "        let mut "@ + snake + " = "@ + call + ";\n"@ + "        self.populate_"@ + snake
            + "_relations(&mut "@ + snake + ").await?;\n"@ + "        Ok("@ + snake + ")\n"@
    } else {
        "        Ok("@ + call + ")\n"@
    }) + "    }\n\n"@
}

/// Generate the markdown `get_{snake}` method.
pub fn generate_get(code: &mut String, entity: &EntityDef, has_relations: bool)
    ensures
        final(code)@ == old(code)@ + md_get_text(*entity, has_relations),
{
    let name = entity.name.as_str();
    let snake = to_snake_case(name);
    let s = snake.as_str();
    let dir = dir_const(s);
    let call = into_call(s, entity, "id.to_string()", "doc");
    let mut t = String::from_str("    pub async fn get_");
    t.append(s);
    t.append("(&self, id: &str) -> Result<");
    t.append(name);
    t.append(", AppError> {\n");
    t.append("        let doc = self\n");
    t.append("            .vault()\n");
    t.append("            .read_record_opt(");
    t.append(dir.as_str());
    t.append(", id)\n");
    t.append("            .map_err(AppError::from)?\n");
    t.append("            .ok_or_else(|| AppError::");
    t.append(name);
    t.append("NotFound(id.to_string()))?;\n");
    t.append("        let fm: ");
    t.append(name);
    t.append("Frontmatter");
    t.append(" = doc.deserialize().map_err(AppError::from)?;\n");
    let tail = if has_relations {
        let mut u = String::from_str("        let mut ");
        u.append(s);
        u.append(" = ");
        u.append(call.as_str());
        u.append(";\n");
        u.append("        self.populate_");
        u.append(s);
        u.append("_relations(&mut ");
        u.append(s);
        u.append(").await?;\n");
        u.append("        Ok(");
        u.append(s);
        u.append(")\n");
        u
    } else {
        let mut u = String::from_str("        Ok(");
        u.append(call.as_str());
        u.append(")\n");
        u
    };
    t.append(tail.as_str());
    t.append("    }\n\n");
    code.append(t.as_str());
}

/// The body line of `create`/`update`, when the entity has a body.
pub open spec fn body_line(e: EntityDef, indent: Seq<char>, suffix: Seq<char>) -> Seq<char> {
    match body_of(e) {
        Some(b) => indent + "doc.set_body("@ + snake_spec(e.name@) + "."@ + b.name@ + suffix,
        None => ""@,
    }
}

fn body_line_exec(e: &EntityDef, snake: &str, indent: &str, suffix: &str) -> (r: String)
    requires
        snake@ == snake_spec(e.name@),
    ensures
        r@ == body_line(*e, indent@, suffix@),
{
    match e.body_field() {
        Some(b) => {
            let mut t = String::from_str(indent);
            t.append("doc.set_body(");
            t.append(snake);
            t.append(".");
            t.append(b.name.as_str());
            t.append(suffix);
            t
        },
        None => String::from_str(""),
    }
}

/// The markdown `create_{snake}` method.
pub open spec fn md_create_text(e: EntityDef, slug: Option<Seq<char>>) -> Seq<char> {
    let name = e.name@;
    let snake = snake_spec(name);
    let dir = dir_const_spec(snake);
    let fs = e.fields@;
    "    pub async fn create_"@ + snake + "(&self, mut "@ + snake + ": "@ + name + ") -> Result<"@ + name
        + ", AppError> {\n"@ + "        hooks::before_create(self, &mut "@ + snake + ").await?;\n\n"@
        + rel_field_lines(fs, RelationKind::HasMany, "        let "@, " = "@ + snake + "."@, ".clone();\n"@)
        + (if any_has_many(fs) {
        "\n"@
    } else {
        ""@
    }) + "        let mut doc = markdown_store::Document::new();\n"@ + "        doc.merge_serialize(&"@ + name
        + "Frontmatter"@ + "::from_"@ + snake + "(&"@ + snake + "), "@ + fields_const_spec(snake)
        + ").map_err(AppError::from)?;\n"@ + body_line(e, "        "@, ".clone());\n"@) + "        let id = self\n"@
        + "            .vault()\n"@ + "            .create_record_derived(\n"@ + "                "@ + dir + ",\n"@
        + "                Some("@ + snake + ".id.as_str()).filter(|s| !s.is_empty()),\n"@ + "                "@
        + slug_expr_spec(snake, slug) + ",\n"@ + "                &doc,\n"@ + "            )\n"@
        + "            .map_err(AppError::from)?;\n\n"@ + pieces(Piece::CreateParent, e, fs)
        + "        let created = self.get_"@ + snake + "(&id).await?;\n"@
        + "        self.emit_change(ChangeOp::Created, EntityKind::"@ + name + ", id);\n"@
        + "        hooks::after_create(self, &created).await?;\n"@ + "        Ok(created)\n"@ + "    }\n\n"@
}

/// Generate the markdown `create_{snake}` method: serialize the
/// frontmatter and body, create the record (with a derived id where the id
/// strategy slugs), then set the parent of each `has_many` child.
pub fn generate_create(code: &mut String, entity: &EntityDef, slug_source: Option<&str>)
    ensures
        final(code)@ == old(code)@ + md_create_text(
            *entity,
            match slug_source {
                Some(x) => Some(x@),
                None => None,
            },
        ),
{
    let name = entity.name.as_str();
    let snake = to_snake_case(name);
    let s = snake.as_str();
    let dir = dir_const(s);
    let fields = fields_const(s);
    let (any_hm, _) = has_many_flags(&entity.fields);
    let mut mid = String::from_str(" = ");
    mid.append(s);
    mid.append(".");
    let body = body_line_exec(entity, s, "        ", ".clone());\n");
    let slug = slug_source_expr(s, slug_source);
    let mut t = String::from_str("    pub async fn create_");
    t.append(s);
    t.append("(&self, mut ");
    t.append(s);
    t.append(": ");
    t.append(name);
    t.append(") -> Result<");
    t.append(name);
    t.append(", AppError> {\n");
    t.append("        hooks::before_create(self, &mut ");
    t.append(s);
    t.append(").await?;\n\n");
    crate::store::gen_crud::rel_field_lines_exec(&mut t, &entity.fields, RelationKind::HasMany, "        let ", mid.as_str(), ".clone();\n");
    if any_hm {
        t.append("\n");
    } else {
        t.append("");
    }
    t.append("        let mut doc = markdown_store::Document::new();\n");
    t.append("        doc.merge_serialize(&");
    t.append(name);
    t.append("Frontmatter");
    t.append("::from_");
    t.append(s);
    t.append("(&");
    t.append(s);
    t.append("), ");
    t.append(fields.as_str());
    t.append(").map_err(AppError::from)?;\n");
    t.append(body.as_str());
    t.append("        let id = self\n");
    t.append("            .vault()\n");
    t.append("            .create_record_derived(\n");
    t.append("                ");
    t.append(dir.as_str());
    t.append(",\n");
    t.append("                Some(");
    t.append(s);
    t.append(".id.as_str()).filter(|s| !s.is_empty()),\n");
    t.append("                ");
    t.append(slug.as_str());
    t.append(",\n");
    t.append("                &doc,\n");
    t.append("            )\n");
    t.append("            .map_err(AppError::from)?;\n\n");
    pieces_exec(&mut t, Piece::CreateParent, entity);
    t.append("        let created = self.get_");
    t.append(s);
    t.append("(&id).await?;\n");
    t.append("        self.emit_change(ChangeOp::Created, EntityKind::");
    t.append(name);
    t.append(", id);\n");
    t.append("        hooks::after_create(self, &created).await?;\n");
    t.append("        Ok(created)\n");
    t.append("    }\n\n");
    code.append(t.as_str());
}

/// The markdown `update_{snake}` method.
pub open spec fn md_update_text(e: EntityDef) -> Seq<char> {
    let name = e.name@;
    let snake = snake_spec(name);
    let dir = dir_const_spec(snake);
    let fs = e.fields@;
    "    pub async fn update_"@ + snake + "(&self, id: &str, updates: "@ + name + "Update) -> Result<"@ + name
        + ", AppError> {\n"@ + "        let current = self.get_"@ + snake + "(id).await?;\n"@
        + "        hooks::before_update(self, &current, &updates).await?;\n\n"@ + rel_field_lines(
        fs,
        RelationKind::HasMany,
        "        let "@,
        "_changed = updates."@,
        ".is_some();\n"@,
    ) + (if any_has_many(fs) {
        "\n"@
    } else {
        ""@
    }) + "        self.vault()\n"@ + "            .modify_record("@ + dir + ", id, |doc| {\n"@
        + "                let fm: "@ + name + "Frontmatter"@ + " = doc.deserialize()?;\n"@ + "                let mut "@
        + snake + " = "@ + into_call_spec(snake, e, "id.to_string()"@, "doc"@) + ";\n"@
        + "                updates.apply(&mut "@ + snake + ");\n"@ + "                doc.merge_serialize(&"@ + name
        + "Frontmatter"@ + "::from_"@ + snake + "(&"@ + snake + "), "@ + fields_const_spec(snake) + ")?;\n"@
        + body_line(e, "                "@, ");\n"@) + "                Ok(())\n"@ + "            })\n"@
        + "            .map_err(AppError::from)?;\n\n"@ + pieces(Piece::UpdateParent, e, fs) + (if any_has_many_fk(
        fs,
    ) {
        "\n"@
    } else {
        ""@
    }) + "        let result = self.get_"@ + snake + "(id).await?;\n"@
        + "        self.emit_change(ChangeOp::Updated, EntityKind::"@ + name + ", id.to_string());\n"@
        + "        hooks::after_update(self, &result).await?;\n"@ + "        Ok(result)\n"@ + "    }\n\n"@
}

/// Generate the markdown `update_{snake}` method: fetch through `get`
/// (relations populated, as the SeaORM hooks see it), patch the record in
/// place, and re-point changed `has_many` children.
pub fn generate_update(code: &mut String, entity: &EntityDef)
    ensures
        final(code)@ == old(code)@ + md_update_text(*entity),
{
    let name = entity.name.as_str();
    let snake = to_snake_case(name);
    let s = snake.as_str();
    let dir = dir_const(s);
    let fields = fields_const(s);
    let (any_hm, any_fk) = has_many_flags(&entity.fields);
    let call = into_call(s, entity, "id.to_string()", "doc");
    let body = body_line_exec(entity, s, "                ", ");\n");
    let mut t = String::from_str("    pub async fn update_");
    t.append(s);
    t.append("(&self, id: &str, updates: ");
    t.append(name);
    t.append("Update) -> Result<");
    t.append(name);
    t.append(", AppError> {\n");
    t.append("        let current = self.get_");
    t.append(s);
    t.append("(id).await?;\n");
    t.append("        hooks::before_update(self, &current, &updates).await?;\n\n");
    crate::store::gen_crud::rel_field_lines_exec(&mut t, &entity.fields, RelationKind::HasMany, "        let ", "_changed = updates.", ".is_some();\n");
    if any_hm {
        t.append("\n");
    } else {
        t.append("");
    }
    t.append("        self.vault()\n");
    t.append("            .modify_record(");
    t.append(dir.as_str());
    t.append(", id, |doc| {\n");
    t.append("                let fm: ");
    t.append(name);
    t.append("Frontmatter");
    t.append(" = doc.deserialize()?;\n");
    t.append("                let mut ");
    t.append(s);
    t.append(" = ");
    t.append(call.as_str());
    t.append(";\n");
    t.append("                updates.apply(&mut ");
    t.append(s);
    t.append(");\n");
    t.append("                doc.merge_serialize(&");
    t.append(name);
    t.append("Frontmatter");
    t.append("::from_");
    t.append(s);
    t.append("(&");
    t.append(s);
    t.append("), ");
    t.append(fields.as_str());
    t.append(")?;\n");
    t.append(body.as_str());
    t.append("                Ok(())\n");
    t.append("            })\n");
    t.append("            .map_err(AppError::from)?;\n\n");
    pieces_exec(&mut t, Piece::UpdateParent, entity);
    if any_fk {
        t.append("\n");
    } else {
        t.append("");
    }
    t.append("        let result = self.get_");
    t.append(s);
    t.append("(id).await?;\n");
    t.append("        self.emit_change(ChangeOp::Updated, EntityKind::");
    t.append(name);
    t.append(", id.to_string());\n");
    t.append("        hooks::after_update(self, &result).await?;\n");
    t.append("        Ok(result)\n");
    t.append("    }\n\n");
    code.append(t.as_str());
}

/// The markdown `delete_{snake}` method.
pub open spec fn md_delete_text(e: EntityDef) -> Seq<char> {
    let name = e.name@;
    let snake = snake_spec(name);
    "    pub async fn delete_"@ + snake + "(&self, id: &str) -> Result<(), AppError> {\n"@
        + "        hooks::before_delete(self, id).await?;\n\n"@ + "        match self.vault().remove_record("@
        + dir_const_spec(snake) + ", id) {\n"@ + "            Ok(()) => {}\n"@
        + "            Err(markdown_store::Error::NotFound { .. }) => {\n"@ + "                return Err(AppError::"@
        + name + "NotFound(id.to_string()));\n"@ + "            }\n"@
        + "            Err(e) => return Err(AppError::from(e)),\n"@ + "        }\n\n"@
        + "        self.emit_change(ChangeOp::Deleted, EntityKind::"@ + name + ", id.to_string());\n"@
        + "        hooks::after_delete(self, id).await?;\n"@ + "        Ok(())\n"@ + "    }\n\n"@
}

/// Generate the markdown `delete_{snake}` method: a missing record is the
/// entity's not-found error.
pub fn generate_delete(code: &mut String, entity: &EntityDef)
    ensures
        final(code)@ == old(code)@ + md_delete_text(*entity),
{
    let name = entity.name.as_str();
    let snake = to_snake_case(name);
    let s = snake.as_str();
    let dir = dir_const(s);
    let mut t = String::from_str("    pub async fn delete_");
    t.append(s);
    t.append("(&self, id: &str) -> Result<(), AppError> {\n");
    t.append("        hooks::before_delete(self, id).await?;\n\n");
    t.append("        match self.vault().remove_record(");
    t.append(dir.as_str());
    t.append(", id) {\n");
    t.append("            Ok(()) => {}\n");
    t.append("            Err(markdown_store::Error::NotFound { .. }) => {\n");
    t.append("                return Err(AppError::");
    t.append(name);
    t.append("NotFound(id.to_string()));\n");
    t.append("            }\n");
    t.append("            Err(e) => return Err(AppError::from(e)),\n");
    t.append("        }\n\n");
    t.append("        self.emit_change(ChangeOp::Deleted, EntityKind::");
    t.append(name);
    t.append(", id.to_string());\n");
    t.append("        hooks::after_delete(self, id).await?;\n");
    t.append("        Ok(())\n");
    t.append("    }\n\n");
    code.append(t.as_str());
}

/// The markdown `populate_{snake}_relations` method.
pub open spec fn md_populate_text(e: EntityDef) -> Seq<char> {
    let name = e.name@;
    let snake = snake_spec(name);
    "    pub(crate) async fn populate_"@ + snake + "_relations(\n"@ + "        &self,\n        "@ + snake
        + ": &mut crate::schema::"@ + name + ",\n"@ + "    ) -> Result<(), crate::schema::AppError> {\n"@
        + (if !any_has_many_fk(e.fields@) {
        "        // many_to_many lists are authoritative in this record's own\n"@
            + "        // frontmatter and were populated at parse time.\n"@ + "        let _ = &*self;\n"@
            + "        let _ = &*"@ + snake + ";\n"@
    } else {
        ""@
    }) + pieces(Piece::Load, e, e.fields@) + "        Ok(())\n"@ + "    }\n\n"@
}

/// Generate the markdown `populate_{snake}_relations` method: `has_many`
/// children are found by walking the entity directory.
pub fn generate_populate_relations(code: &mut String, entity: &EntityDef)
    ensures
        final(code)@ == old(code)@ + md_populate_text(*entity),
{
    let name = entity.name.as_str();
    let snake = to_snake_case(name);
    let s = snake.as_str();
    let (_, any_fk) = has_many_flags(&entity.fields);
    let mut t = String::from_str("    pub(crate) async fn populate_");
    t.append(s);
    t.append("_relations(\n");
    t.append("        &self,\n        ");
    t.append(s);
    t.append(": &mut crate::schema::");
    t.append(name);
    t.append(",\n");
    t.append("    ) -> Result<(), crate::schema::AppError> {\n");
    if !any_fk {
        let mut u = String::from_str("        // many_to_many lists are authoritative in this record's own\n");
        u.append("        // frontmatter and were populated at parse time.\n");
        u.append("        let _ = &*self;\n");
        u.append("        let _ = &*");
        u.append(s);
        u.append(";\n");
        t.append(u.as_str());
    } else {
        t.append("");
    }
    pieces_exec(&mut t, Piece::Load, entity);
    t.append("        Ok(())\n");
    t.append("    }\n\n");
    code.append(t.as_str());
}

/// The markdown `impl Store` block of an entity.
pub open spec fn md_crud_impl_text(e: EntityDef, slug: Option<Seq<char>>) -> Seq<char> {
    let hr = has_relations_spec(e);
    "impl Store {\n"@ + md_list_text(e, hr) + md_get_text(e, hr) + md_create_text(e, slug) + md_update_text(e)
        + md_delete_text(e) + (if hr {
        md_populate_text(e)
    } else {
        ""@
    }) + pieces(Piece::Helper, e, e.fields@) + "}\n"@
}

/// Generate the complete `impl Store { ... }` block for the markdown
/// backend; `slug_source` is the field ids are derived from, if any.
pub fn generate_crud_impl(code: &mut String, entity: &EntityDef, slug_source: Option<&str>)
    ensures
        final(code)@ == old(code)@ + md_crud_impl_text(
            *entity,
            match slug_source {
                Some(x) => Some(x@),
                None => None,
            },
        ),
{
    let hr = entity.has_relations();
    let mut t = String::from_str("impl Store {\n");
    generate_list(&mut t, entity, hr);
    generate_get(&mut t, entity, hr);
    generate_create(&mut t, entity, slug_source);
    generate_update(&mut t, entity);
    generate_delete(&mut t, entity);
    if hr {
        generate_populate_relations(&mut t, entity);
    } else {
        t.append("");
    }
    pieces_exec(&mut t, Piece::Helper, entity);
    t.append("}\n");
    code.append(t.as_str());
}

/// Generate the markdown `set_{snake}_parent` helper for a `has_many`
/// foreign key: read, re-point and rewrite the child record.
pub fn generate_set_parent_helper(code: &mut String, entity: &EntityDef, fk: &str)
    ensures
        final(code)@ == old(code)@ + piece_text(Piece::Helper, *entity, ""@, fk@),
{
    let t = piece_exec(Piece::Helper, entity, "", fk);
    code.append(t.as_str());
}

// ─── The backend ────────────────────────────────────────────────────────────

/// A character as a string literal's debug form writes it.
pub open spec fn escape_char(c: char) -> Seq<char> {
    if c == '"' {
        seq!['\\', '"']
    } else if c == '\\' {
        seq!['\\', '\\']
    } else if c == '\n' {
        seq!['\\', 'n']
    } else if c == '\r' {
        seq!['\\', 'r']
    } else if c == '\t' {
        seq!['\\', 't']
    } else if c == '\0' {
        seq!['\\', '0']
    } else {
        seq![c]
    }
}

/// A string as its debug form writes it: quoted, with quotes, backslashes
/// and the common control characters escaped.
pub open spec fn quoted(s: Seq<char>) -> Seq<char> {
    "\""@ + crate::text::flat_map(s, |c: char| escape_char(c)) + "\""@
}

/// The debug form of a field type.
pub open spec fn debug_spec(t: FieldType) -> Seq<char> {
    match t {
        FieldType::String => "String"@,
        FieldType::OptionString => "OptionString"@,
        FieldType::OptionEnum(n) => "OptionEnum("@ + quoted(n@) + ")"@,
        FieldType::VecString => "VecString"@,
        FieldType::VecStruct(n) => "VecStruct("@ + quoted(n@) + ")"@,
        FieldType::I32 => "I32"@,
        FieldType::OptionI32 => "OptionI32"@,
        FieldType::I64 => "I64"@,
        FieldType::OptionI64 => "OptionI64"@,
        FieldType::F32 => "F32"@,
        FieldType::OptionF32 => "OptionF32"@,
        FieldType::F64 => "F64"@,
        FieldType::OptionF64 => "OptionF64"@,
        FieldType::Bool => "Bool"@,
        FieldType::OptionBool => "OptionBool"@,
        FieldType::Other(n) => "Other("@ + quoted(n@) + ")"@,
    }
}

fn quoted_exec(s: &str) -> (r: String)
    ensures
        r@ == quoted(s@),
{
    let v = crate::text::chars_of(s);
    let mut r = String::from_str("\"");
    let ghost head = r@;
    let mut i: usize = 0;
    assert(v@.subrange(0, 0) =~= Seq::<char>::empty());
    assert(head =~= head + crate::text::flat_map(v@.subrange(0, 0), |c: char| escape_char(c)));
    while i < v.len()
        invariant
            i <= v.len(),
            v@ == s@,
            head == "\""@,
            r@ == head + crate::text::flat_map(v@.subrange(0, i as int), |c: char| escape_char(c)),
        decreases v.len() - i,
    {
        proof {
            crate::text::lemma_flat_map_take(v@, |c: char| escape_char(c), i as int);
        }
        let c = v[i];
        let piece = if c == '"' {
            String::from_str("\\\"")
        } else if c == '\\' {
            String::from_str("\\\\")
        } else if c == '\n' {
            String::from_str("\\n")
        } else if c == '\r' {
            String::from_str("\\r")
        } else if c == '\t' {
            String::from_str("\\t")
        } else if c == '\0' {
            String::from_str("\\0")
        } else {
            let mut p = String::new();
            crate::text::push_char(&mut p, c);
            p
        };
        proof {
            reveal_strlit("\\\"");
            reveal_strlit("\\\\");
            reveal_strlit("\\n");
            reveal_strlit("\\r");
            reveal_strlit("\\t");
            reveal_strlit("\\0");
            assert(piece@ =~= escape_char(c));
        }
        r.append(piece.as_str());
        i = i + 1;
    }
    proof {
        crate::text::lemma_flat_map_all(v@, |c: char| escape_char(c));
    }
    r.append("\"");
    r
}

/// The debug form of a field type, as the derived `Debug` writes it.
pub fn field_type_debug(t: &FieldType) -> (r: String)
    ensures
        r@ == debug_spec(*t),
{
    match t {
        FieldType::String => String::from_str("String"),
        FieldType::OptionString => String::from_str("OptionString"),
        FieldType::OptionEnum(n) => {
            let mut r = String::from_str("OptionEnum(");
            let q = quoted_exec(n.as_str());
            r.append(q.as_str());
            r.append(")");
            r
        },
        FieldType::VecString => String::from_str("VecString"),
        FieldType::VecStruct(n) => {
            let mut r = String::from_str("VecStruct(");
            let q = quoted_exec(n.as_str());
            r.append(q.as_str());
            r.append(")");
            r
        },
        FieldType::I32 => String::from_str("I32"),
        FieldType::OptionI32 => String::from_str("OptionI32"),
        FieldType::I64 => String::from_str("I64"),
        FieldType::OptionI64 => String::from_str("OptionI64"),
        FieldType::F32 => String::from_str("F32"),
        FieldType::OptionF32 => String::from_str("OptionF32"),
        FieldType::F64 => String::from_str("F64"),
        FieldType::OptionF64 => String::from_str("OptionF64"),
        FieldType::Bool => String::from_str("Bool"),
        FieldType::OptionBool => String::from_str("OptionBool"),
        FieldType::Other(n) => {
            let mut r = String::from_str("Other(");
            let q = quoted_exec(n.as_str());
            r.append(q.as_str());
            r.append(")");
            r
        },
    }
}

/// The markdown store backend, built on the markdown I/O output.
#[derive(Debug, Clone)]
pub struct MarkdownBackend {
    /// What the markdown I/O generator produced.
    pub md: MarkdownIoOutput,
}

/// The directory segment of the first layout entry naming the entity, else
/// the entity's directory.
pub open spec fn dir_segment_in(metas: Seq<crate::ir::MarkdownEntityMeta>, e: EntityDef) -> Seq<char>
    decreases metas.len(),
{
    if metas.len() == 0 {
        e.directory@
    } else if metas[0].entity_name@ == e.name@ {
        metas[0].dir_segment@
    } else {
        dir_segment_in(metas.subrange(1, metas.len() as int), e)
    }
}

/// The slug field of the id strategy, if it slugs.
pub open spec fn slug_of(md: MarkdownIoOutput) -> Option<Seq<char>> {
    match md.id_strategy {
        IdStrategy::SlugFromField(f) => Some(f@),
        _ => None,
    }
}

/// The error of an entity that cannot derive ids from the slug field, if
/// any: the field is missing, or is not a plain `String`.
pub open spec fn slug_error(field: Seq<char>, e: EntityDef) -> Option<Seq<char>> {
    match first_named(e.fields@, field) {
        None => Some(
            "IdStrategy::SlugFromField(\""@ + field + "\"): entity `"@ + e.name@ + "` has no field `"@ + field
                + "` to derive ids from"@,
        ),
        Some(i) => if e.fields@[i].field_type is String {
            None
        } else {
            Some(
                "IdStrategy::SlugFromField(\""@ + field + "\"): field `"@ + field + "` on entity `"@ + e.name@
                    + "` must be a plain String, found "@ + debug_spec(e.fields@[i].field_type),
            )
        },
    }
}

/// The first field named `name`.
pub open spec fn first_named(fs: Seq<FieldDef>, name: Seq<char>) -> Option<int>
    decreases fs.len(),
{
    if fs.len() == 0 {
        None
    } else if fs[0].name@ == name {
        Some(0)
    } else {
        match first_named(fs.subrange(1, fs.len() as int), name) {
            Some(i) => Some(i + 1),
            None => None,
        }
    }
}

/// The first entity that cannot derive ids from the slug field, with the
/// error.
pub open spec fn first_slug_error(field: Seq<char>, es: Seq<EntityDef>) -> Option<Seq<char>>
    decreases es.len(),
{
    if es.len() == 0 {
        None
    } else {
        match slug_error(field, es[0]) {
            Some(m) => Some(m),
            None => first_slug_error(field, es.subrange(1, es.len() as int)),
        }
    }
}

fn find_named(fs: &Vec<FieldDef>, name: &str) -> (r: Option<usize>)
    ensures
        r matches Some(k) ==> k < fs@.len() && first_named(fs@, name@) == Some(k as int),
        r is None ==> first_named(fs@, name@) is None,
{
    let mut i: usize = 0;
    assert(fs@.subrange(0, fs@.len() as int) =~= fs@);
    while i < fs.len()
        invariant
            i <= fs.len(),
            first_named(fs@, name@) == (match first_named(fs@.subrange(i as int, fs@.len() as int), name@) {
                Some(j) => Some(j + i),
                None => None,
            }),
        decreases fs.len() - i,
    {
        let ghost t = fs@.subrange(i as int, fs@.len() as int);
        assert(t[0] == fs@[i as int]);
        assert(t.subrange(1, t.len() as int) =~= fs@.subrange(i + 1, fs@.len() as int));
        if str_eq(fs[i].name.as_str(), name) {
            return Some(i);
        }
        i = i + 1;
    }
    None
}

fn find_dir_segment<'a>(metas: &'a Vec<crate::ir::MarkdownEntityMeta>, entity: &'a EntityDef) -> (r: &'a str)
    ensures
        r@ == dir_segment_in(metas@, *entity),
{
    let mut i: usize = 0;
    assert(metas@.subrange(0, metas@.len() as int) =~= metas@);
    while i < metas.len()
        invariant
            i <= metas.len(),
            dir_segment_in(metas@, *entity) == dir_segment_in(metas@.subrange(i as int, metas@.len() as int), *entity),
        decreases metas.len() - i,
    {
        let ghost t = metas@.subrange(i as int, metas@.len() as int);
        assert(t[0] == metas@[i as int]);
        assert(t.subrange(1, t.len() as int) =~= metas@.subrange(i + 1, metas@.len() as int));
        if str_eq(metas[i].entity_name.as_str(), entity.name.as_str()) {
            return metas[i].dir_segment.as_str();
        }
        i = i + 1;
    }
    entity.directory.as_str()
}

impl MarkdownBackend {
    /// Markdown stores strip wikilink-shaped relation ids on the way in.
    pub fn wikilink_policy(&self) -> (r: crate::store::gen_crud::WikilinkPolicy)
        ensures
            r == crate::store::gen_crud::WikilinkPolicy::Strip,
    {
        crate::store::gen_crud::WikilinkPolicy::Strip
    }

    /// The field ids are slugged from, when the id strategy slugs.
    pub fn slug_source(&self) -> (r: Option<&str>)
        ensures
            match slug_of(self.md) {
                Some(f) => r matches Some(x) && x@ == f,
                None => r is None,
            },
    {
        match &self.md.id_strategy {
            IdStrategy::SlugFromField(field) => Some(field.as_str()),
            IdStrategy::Provided | IdStrategy::Uuid => None,
        }
    }

    /// Check that every entity can derive ids from the slug field: it must
    /// have the field, as a plain `String`.
    pub fn validate(&self, entities: &Vec<EntityDef>) -> (r: Result<(), String>)
        ensures
            match slug_of(self.md) {
                Some(f) => match first_slug_error(f, entities@) {
                    Some(m) => r matches Err(e) && e@ == m,
                    None => r is Ok,
                },
                None => r is Ok,
            },
    {
        let field = match &self.md.id_strategy {
            IdStrategy::SlugFromField(field) => field,
            _ => {
                return Ok(());
            },
        };
        let mut i: usize = 0;
        assert(entities@.subrange(0, entities@.len() as int) =~= entities@);
        while i < entities.len()
            invariant
                i <= entities.len(),
                slug_of(self.md) == Some(field@),
                first_slug_error(field@, entities@) == first_slug_error(
                    field@,
                    entities@.subrange(i as int, entities@.len() as int),
                ),
            decreases entities.len() - i,
        {
            let ghost t = entities@.subrange(i as int, entities@.len() as int);
            assert(t[0] == entities@[i as int]);
            assert(t.subrange(1, t.len() as int) =~= entities@.subrange(i + 1, entities@.len() as int));
            let e = &entities[i];
            match find_named(&e.fields, field.as_str()) {
                None => {
                    let mut m = String::from_str("IdStrategy::SlugFromField(\"");
                    m.append(field.as_str());
                    m.append("\"): entity `");
                    m.append(e.name.as_str());
                    m.append("` has no field `");
                    m.append(field.as_str());
                    m.append("` to derive ids from");
                    return Err(m);
                },
                Some(k) => {
                    let is_string = match e.fields[k].field_type {
                        FieldType::String => true,
                        _ => false,
                    };
                    assert(first_named(e.fields@, field@) == Some(k as int));
                    assert(is_string == (e.fields@[k as int].field_type is String));
                    assert(is_string ==> slug_error(field@, *e) is None);
                    assert(!is_string ==> slug_error(field@, *e) is Some);
                    if !is_string {
                        let mut m = String::from_str("IdStrategy::SlugFromField(\"");
                        m.append(field.as_str());
                        m.append("\"): field `");
                        m.append(field.as_str());
                        m.append("` on entity `");
                        m.append(e.name.as_str());
                        m.append("` must be a plain String, found ");
                        let d = field_type_debug(&e.fields[k].field_type);
                        m.append(d.as_str());
                        return Err(m);
                    }
                },
            }
            i = i + 1;
        }
        Ok(())
    }

    /// The imports of an entity's frontmatter type and field list.
    pub fn emit_preamble(&self, code: &mut String, entity: &EntityDef)
        ensures
            final(code)@ == old(code)@ + "use "@ + self.md.mod_path@ + "::"@ + snake_spec(entity.name@) + "::{"@
                + str_upper(snake_spec(entity.name@)) + "_FM_FIELDS, "@ + entity.name@ + "Frontmatter};\n"@,
    {
        let snake = to_snake_case(entity.name.as_str());
        let shout = upper_exec(snake.as_str());
        code.append("use ");
        code.append(self.md.mod_path.as_str());
        code.append("::");
        code.append(snake.as_str());
        code.append("::{");
        code.append(shout.as_str());
        code.append("_FM_FIELDS, ");
        code.append(entity.name.as_str());
        code.append("Frontmatter};\n");
    }

    /// The entity's directory constant.
    pub fn emit_declarations(&self, code: &mut String, entity: &EntityDef)
        ensures
            final(code)@ == old(code)@ + "const "@ + dir_const_spec(snake_spec(entity.name@)) + ": &str = \""@
                + dir_segment_in(self.md.entities@, *entity) + "\";\n\n"@,
    {
        let snake = to_snake_case(entity.name.as_str());
        let dir_segment = find_dir_segment(&self.md.entities, entity);
        let dc = dir_const(snake.as_str());
        code.append("const ");
        code.append(dc.as_str());
        code.append(": &str = \"");
        code.append(dir_segment);
        code.append("\";\n\n");
    }

    /// The entity's `impl Store` block.
    pub fn emit_crud_impl(&self, code: &mut String, entity: &EntityDef)
        ensures
            final(code)@ == old(code)@ + md_crud_impl_text(*entity, slug_of(self.md)),
    {
        generate_crud_impl(code, entity, self.slug_source());
    }
}

// ─── Backend parity ─────────────────────────────────────────────────────────

/// The signature line of `list_{plural}`.
pub open spec fn list_sig(e: EntityDef) -> Seq<char> {
    "    pub async fn list_"@ + plural_spec(snake_spec(e.name@))
        + "(&self, limit: Option<u64>, offset: Option<u64>) -> Result<Vec<"@ + e.name@ + ">, AppError> {\n"@
}

/// The signature line of `get_{snake}`.
pub open spec fn get_sig(e: EntityDef) -> Seq<char> {
    "    pub async fn get_"@ + snake_spec(e.name@) + "(&self, id: &str) -> Result<"@ + e.name@ + ", AppError> {\n"@
}

/// The signature line of `create_{snake}`.
pub open spec fn create_sig(e: EntityDef) -> Seq<char> {
    let snake = snake_spec(e.name@);
    "    pub async fn create_"@ + snake + "(&self, mut "@ + snake + ": "@ + e.name@ + ") -> Result<"@ + e.name@
        + ", AppError> {\n"@
}

/// The signature line of `update_{snake}`.
pub open spec fn update_sig(e: EntityDef) -> Seq<char> {
    "    pub async fn update_"@ + snake_spec(e.name@) + "(&self, id: &str, updates: "@ + e.name@
        + "Update) -> Result<"@ + e.name@ + ", AppError> {\n"@
}

/// The signature line of `delete_{snake}`.
pub open spec fn delete_sig(e: EntityDef) -> Seq<char> {
    "    pub async fn delete_"@ + snake_spec(e.name@) + "(&self, id: &str) -> Result<(), AppError> {\n"@
}

/// The signature line of `populate_{snake}_relations`.
pub open spec fn populate_sig(e: EntityDef) -> Seq<char> {
    "    pub(crate) async fn populate_"@ + snake_spec(e.name@) + "_relations(\n"@
}

/// The signature line of `set_{snake}_parent`.
pub open spec fn set_parent_sig(e: EntityDef) -> Seq<char> {
    "    async fn set_"@ + snake_spec(e.name@) + "_parent(\n"@
}

/// A prefix of `a` is a prefix of `a + b`.
pub broadcast proof fn lemma_starts_with_add(a: Seq<char>, b: Seq<char>, p: Seq<char>)
    requires
        crate::text::starts_with(a, p),
    ensures
        #[trigger] crate::text::starts_with(a + b, p),
{
    assert((a + b).subrange(0, p.len() as int) =~= a.subrange(0, p.len() as int));
}

/// `p` is a prefix of `p + b`.
pub broadcast proof fn lemma_starts_with_self(p: Seq<char>, b: Seq<char>)
    ensures
        #[trigger] crate::text::starts_with(p + b, p),
{
    assert((p + b).subrange(0, p.len() as int) =~= p);
}

/// Both backends give each method of an entity the same signature: every
/// CRUD method of the SeaORM `impl Store` block and its markdown
/// counterpart begin with the same line, as do the two relation-population
/// methods and, for each `has_many` foreign key, the two parent helpers.
pub proof fn law_backend_signature_parity(
    e: EntityDef,
    has_relations: bool,
    slug: Option<Seq<char>>,
    fname: Seq<char>,
    fk: Seq<char>,
)
    ensures
        crate::text::starts_with(crate::store::gen_crud::populate_text(e), populate_sig(e)),
        crate::text::starts_with(md_populate_text(e), populate_sig(e)),
        crate::text::starts_with(crate::store::gen_crud::set_parent_text(e, fk), set_parent_sig(e)),
        crate::text::starts_with(piece_text(Piece::Helper, e, fname, fk), set_parent_sig(e)),
        crate::text::starts_with(crate::store::gen_crud::list_text(e, has_relations), list_sig(e)),
        crate::text::starts_with(md_list_text(e, has_relations), list_sig(e)),
        crate::text::starts_with(crate::store::gen_crud::get_text(e, has_relations), get_sig(e)),
        crate::text::starts_with(md_get_text(e, has_relations), get_sig(e)),
        crate::text::starts_with(crate::store::gen_crud::create_text(e, has_relations), create_sig(e)),
        crate::text::starts_with(md_create_text(e, slug), create_sig(e)),
        crate::text::starts_with(crate::store::gen_crud::update_text(e, has_relations), update_sig(e)),
        crate::text::starts_with(md_update_text(e), update_sig(e)),
        crate::text::starts_with(crate::store::gen_crud::delete_text(e), delete_sig(e)),
        crate::text::starts_with(md_delete_text(e), delete_sig(e)),
{
    broadcast use lemma_starts_with_add, lemma_starts_with_self;

}

/// The `let {field}_changed = ...` lines of an update for the entity's
/// `has_many` fields.
pub open spec fn has_many_changed_lines(e: EntityDef) -> Seq<char> {
    rel_field_lines(e.fields@, RelationKind::HasMany, "        let "@, "_changed = updates."@, ".is_some();\n"@)
}

/// The lifecycle lines a store method of either backend holds: the hook
/// calls and change notifications of `create` (the first three), `update`
/// (the next four, with the change flags of the `has_many` fields) and
/// `delete` (the last three).
pub open spec fn lifecycle_lines(e: EntityDef) -> Seq<Seq<char>> {
    let name = e.name@;
    let snake = snake_spec(name);
    seq![
        "        hooks::before_create(self, &mut "@ + snake + ").await?;\n"@,
        "        self.emit_change(ChangeOp::Created, EntityKind::"@ + name + ", id);\n"@,
        "        hooks::after_create(self, &created).await?;\n"@,
        "        hooks::before_update(self, &current, &updates).await?;\n"@,
        has_many_changed_lines(e),
        "        self.emit_change(ChangeOp::Updated, EntityKind::"@ + name + ", id.to_string());\n"@,
        "        hooks::after_update(self, &result).await?;\n"@,
        "        hooks::before_delete(self, id).await?;\n"@,
        "        self.emit_change(ChangeOp::Deleted, EntityKind::"@ + name + ", id.to_string());\n"@,
        "        hooks::after_delete(self, id).await?;\n"@,
    ]
}

/// An occurrence in a text's prefix is one in the text.
proof fn lemma_occurs_in_prefix(t: Seq<char>, s: Seq<char>, l: Seq<char>, off: int)
    requires
        s.len() <= t.len(),
        t.subrange(0, s.len() as int) == s,
        crate::text::occurs_at(s, l, off),
    ensures
        crate::text::occurs_at(t, l, off),
{
    assert(t.subrange(off, off + l.len()) =~= s.subrange(off, off + l.len()));
}

/// An occurrence in a text's suffix is one in the text.
proof fn lemma_occurs_in_suffix(t: Seq<char>, s: Seq<char>, l: Seq<char>, off: int)
    requires
        s.len() <= t.len(),
        t.subrange(t.len() - s.len(), t.len() as int) == s,
        crate::text::occurs_at(s, l, off),
    ensures
        crate::text::occurs_at(t, l, t.len() - s.len() + off),
{
    let b = t.len() - s.len();
    assert(t.subrange(b + off, b + off + l.len()) =~= s.subrange(off, off + l.len()));
}

/// `l` occurs after `a` in `a + l + r`.
proof fn lemma_occurs_mid(a: Seq<char>, l: Seq<char>, r: Seq<char>)
    ensures
        crate::text::occurs_at(a + l + r, l, a.len() as int),
{
    assert((a + l + r).subrange(a.len() as int, (a.len() + l.len()) as int) =~= l);
}

#[verifier::rlimit(40)]
#[verifier::spinoff_prover]
proof fn lemma_sea_create_lines(e: EntityDef, h: bool)
    ensures
        crate::text::contains(crate::store::gen_crud::create_text(e, h), lifecycle_lines(e)[0]),
        crate::text::contains(crate::store::gen_crud::create_text(e, h), lifecycle_lines(e)[1]),
        crate::text::contains(crate::store::gen_crud::create_text(e, h), lifecycle_lines(e)[2]),
{
    let name = e.name@;
    let snake = snake_spec(name);
    let ls = lifecycle_lines(e);
    let t = crate::store::gen_crud::create_text(e, h);
    reveal_strlit(").await?;\n\n");
    reveal_strlit(").await?;\n");
    reveal_strlit(", id);\n\n");
    reveal_strlit(", id);\n");
    reveal_strlit("\n");
    let p = "    pub async fn create_"@ + snake + "(&self, mut "@ + snake + ": "@ + name + ") -> Result<"@ + name
        + ", AppError> {\n"@;
    let pre = p + ls[0];
    assert(t.subrange(0, pre.len() as int) =~= pre);
    lemma_occurs_mid(p, ls[0], Seq::empty());
    assert(p + ls[0] + Seq::<char>::empty() =~= pre);
    lemma_occurs_in_prefix(t, pre, ls[0], p.len() as int);
    let close = "        Ok(created)\n"@ + "    }\n\n"@;
    let st = ls[1] + "\n"@ + ls[2] + close;
    assert(t.subrange(t.len() - st.len(), t.len() as int) =~= st);
    lemma_occurs_mid(Seq::empty(), ls[1], "\n"@ + ls[2] + close);
    assert(Seq::<char>::empty() + ls[1] + ("\n"@ + ls[2] + close) =~= st);
    lemma_occurs_in_suffix(t, st, ls[1], 0);
    lemma_occurs_mid(ls[1] + "\n"@, ls[2], close);
    lemma_occurs_in_suffix(t, st, ls[2], (ls[1].len() + 1) as int);
}

#[verifier::rlimit(100)]
#[verifier::spinoff_prover]
proof fn lemma_md_create_head(e: EntityDef, slug: Option<Seq<char>>)
    ensures
        crate::text::contains(md_create_text(e, slug), lifecycle_lines(e)[0]),
{
    broadcast use lemma_sub_prefix;

    let name = e.name@;
    let snake = snake_spec(name);
    let l = lifecycle_lines(e)[0];
    let t = md_create_text(e, slug);
    let p = "    pub async fn create_"@ + snake + "(&self, mut "@ + snake + ": "@ + name + ") -> Result<"@ + name
        + ", AppError> {\n"@;
    let p2 = p + "        hooks::before_create(self, &mut "@ + snake + ").await?;\n\n"@;
    assert(t.subrange(0, p2.len() as int) == p2.subrange(0, p2.len() as int));
    assert(p2.subrange(0, p2.len() as int) =~= p2);
    assert(p2 =~= p + l + "\n"@) by {
        reveal_strlit(").await?;\n\n");
        reveal_strlit(").await?;\n");
        reveal_strlit("\n");
    }
    lemma_occurs_mid(p, l, "\n"@);
    lemma_occurs_in_prefix(t, p2, l, p.len() as int);
}

#[verifier::rlimit(100)]
#[verifier::spinoff_prover]
proof fn lemma_md_create_tail(e: EntityDef, slug: Option<Seq<char>>)
    ensures
        crate::text::contains(md_create_text(e, slug), lifecycle_lines(e)[1]),
        crate::text::contains(md_create_text(e, slug), lifecycle_lines(e)[2]),
{
    let ls = lifecycle_lines(e);
    let t = md_create_text(e, slug);
    let close = "        Ok(created)\n"@ + "    }\n\n"@;
    let st = ls[1] + ls[2] + close;
    assert(t.subrange(t.len() - st.len(), t.len() as int) =~= st);
    lemma_occurs_mid(Seq::empty(), ls[1], ls[2] + close);
    assert(Seq::<char>::empty() + ls[1] + (ls[2] + close) =~= st);
    lemma_occurs_in_suffix(t, st, ls[1], 0);
    lemma_occurs_mid(ls[1], ls[2], close);
    lemma_occurs_in_suffix(t, st, ls[2], ls[1].len() as int);
}

/// A prefix of `x` is the same prefix of `x + y`.
pub broadcast proof fn lemma_sub_prefix(x: Seq<char>, y: Seq<char>, k: int)
    requires
        0 <= k <= x.len(),
    ensures
        #[trigger] (x + y).subrange(0, k) == x.subrange(0, k),
{
    assert((x + y).subrange(0, k) =~= x.subrange(0, k));
}

/// `l` at `p.len()` in a text that begins with `p + l`.
proof fn lemma_holds_after(t: Seq<char>, p: Seq<char>, l: Seq<char>)
    requires
        (p + l).len() <= t.len(),
        t.subrange(0, (p + l).len() as int) == p + l,
    ensures
        crate::text::contains(t, l),
{
    lemma_occurs_mid(p, l, Seq::empty());
    assert(p + l + Seq::<char>::empty() =~= p + l);
    lemma_occurs_in_prefix(t, p + l, l, p.len() as int);
}

/// `a` and `b` in a text that ends with `a + gap + b + close`.
proof fn lemma_holds_tail(t: Seq<char>, a: Seq<char>, gap: Seq<char>, b: Seq<char>, close: Seq<char>)
    requires
        (a + gap + b + close).len() <= t.len(),
        t.subrange(t.len() - (a + gap + b + close).len(), t.len() as int) == a + gap + b + close,
    ensures
        crate::text::contains(t, a),
        crate::text::contains(t, b),
{
    let st = a + gap + b + close;
    lemma_occurs_mid(Seq::empty(), a, gap + b + close);
    assert(Seq::<char>::empty() + a + (gap + b + close) =~= st);
    lemma_occurs_in_suffix(t, st, a, 0);
    lemma_occurs_mid(a + gap, b, close);
    lemma_occurs_in_suffix(t, st, b, (a.len() + gap.len()) as int);
}

#[verifier::rlimit(100)]
#[verifier::spinoff_prover]
proof fn lemma_sea_update_lines(e: EntityDef, h: bool)
    ensures
        crate::text::contains(crate::store::gen_crud::update_text(e, h), lifecycle_lines(e)[3]),
{
    let name = e.name@;
    let snake = snake_spec(name);
    let ls = lifecycle_lines(e);
    let t = crate::store::gen_crud::update_text(e, h);
    let p = "    pub async fn update_"@ + snake + "(&self, id: &str, updates: "@ + name + "Update) -> Result<"@ + name
        + ", AppError> {\n"@ + crate::store::gen_crud::fetch_lines("existing_model"@, snake, name) + "        let mut current = "@
        + name + "::from_model(&existing_model);\n"@ + (if h {
        "        self.populate_"@ + snake + "_relations(&mut current).await?;\n\n"@
    } else {
        ""@
    });
    let b = "        hooks::before_update(self, &current, &updates).await?;\n\n"@;
    assert(t.subrange(0, (p + b).len() as int) == (p + b).subrange(0, (p + b).len() as int)) by {
        broadcast use lemma_sub_prefix;
    }
    assert((p + b).subrange(0, (p + b).len() as int) =~= p + b);
    assert(b =~= ls[3] + "\n"@) by {
        reveal_strlit("        hooks::before_update(self, &current, &updates).await?;\n\n");
        reveal_strlit("        hooks::before_update(self, &current, &updates).await?;\n");
        reveal_strlit("\n");
    }
    assert(p + b =~= p + ls[3] + "\n"@);
    lemma_occurs_mid(p, ls[3], "\n"@);
    lemma_occurs_in_prefix(t, p + b, ls[3], p.len() as int);
}

#[verifier::rlimit(100)]
#[verifier::spinoff_prover]
proof fn lemma_sea_update_flags(e: EntityDef, h: bool)
    ensures
        crate::text::contains(crate::store::gen_crud::update_text(e, h), lifecycle_lines(e)[4]),
{
    let name = e.name@;
    let snake = snake_spec(name);
    let ls = lifecycle_lines(e);
    let t = crate::store::gen_crud::update_text(e, h);
    let p = "    pub async fn update_"@ + snake + "(&self, id: &str, updates: "@ + name + "Update) -> Result<"@ + name
        + ", AppError> {\n"@ + crate::store::gen_crud::fetch_lines("existing_model"@, snake, name) + "        let mut current = "@
        + name + "::from_model(&existing_model);\n"@ + (if h {
        "        self.populate_"@ + snake + "_relations(&mut current).await?;\n\n"@
    } else {
        ""@
    });
    let b = "        hooks::before_update(self, &current, &updates).await?;\n\n"@;
    let q = p + b + crate::store::gen_crud::rel_field_lines(
        e.fields@,
        RelationKind::ManyToMany,
        "        let "@,
        "_changed = updates."@,
        ".is_some();\n"@,
    );
    assert(t.subrange(0, (q + ls[4]).len() as int) == (q + ls[4]).subrange(0, (q + ls[4]).len() as int)) by {
        broadcast use lemma_sub_prefix;
    }
    assert((q + ls[4]).subrange(0, (q + ls[4]).len() as int) =~= q + ls[4]);
    lemma_occurs_mid(q, ls[4], Seq::empty());
    assert(q + ls[4] + Seq::<char>::empty() =~= q + ls[4]);
    lemma_occurs_in_prefix(t, q + ls[4], ls[4], q.len() as int);
}

#[verifier::rlimit(100)]
#[verifier::spinoff_prover]
proof fn lemma_sea_update_tail(e: EntityDef, h: bool)
    ensures
        crate::text::contains(crate::store::gen_crud::update_text(e, h), lifecycle_lines(e)[5]),
        crate::text::contains(crate::store::gen_crud::update_text(e, h), lifecycle_lines(e)[6]),
{
    let ls = lifecycle_lines(e);
    let t = crate::store::gen_crud::update_text(e, h);
    let close = "        Ok(result)\n"@ + "    }\n\n"@;
    let st = ls[5] + "\n"@ + ls[6] + close;
    assert(st.len() <= t.len() && t.subrange(t.len() - st.len(), t.len() as int) == st) by {
        reveal_strlit(", id.to_string());\n\n");
        reveal_strlit(", id.to_string());\n");
        reveal_strlit("\n");
        assert(t.subrange(t.len() - st.len(), t.len() as int) =~= st);
    }
    lemma_holds_tail(t, ls[5], "\n"@, ls[6], close);
}

#[verifier::rlimit(100)]
#[verifier::spinoff_prover]
proof fn lemma_md_update_lines(e: EntityDef)
    ensures
        crate::text::contains(md_update_text(e), lifecycle_lines(e)[3]),
        crate::text::contains(md_update_text(e), lifecycle_lines(e)[4]),
{
    broadcast use lemma_sub_prefix;

    let name = e.name@;
    let snake = snake_spec(name);
    let ls = lifecycle_lines(e);
    let t = md_update_text(e);
    let p = "    pub async fn update_"@ + snake + "(&self, id: &str, updates: "@ + name + "Update) -> Result<"@ + name
        + ", AppError> {\n"@ + "        let current = self.get_"@ + snake + "(id).await?;\n"@;
    let b = "        hooks::before_update(self, &current, &updates).await?;\n\n"@;
    let p1 = p + b;
    let p2 = p1 + ls[4];
    assert(t.subrange(0, p2.len() as int) == p2.subrange(0, p2.len() as int));
    assert(p2.subrange(0, p2.len() as int) =~= p2);
    assert(b =~= ls[3] + "\n"@) by {
        reveal_strlit("        hooks::before_update(self, &current, &updates).await?;\n\n");
        reveal_strlit("        hooks::before_update(self, &current, &updates).await?;\n");
        reveal_strlit("\n");
    }
    assert(p2 =~= p + ls[3] + ("\n"@ + ls[4]));
    lemma_occurs_mid(p, ls[3], "\n"@ + ls[4]);
    lemma_occurs_in_prefix(t, p2, ls[3], p.len() as int);
    lemma_occurs_mid(p1, ls[4], Seq::empty());
    assert(p1 + ls[4] + Seq::<char>::empty() =~= p2);
    lemma_occurs_in_prefix(t, p2, ls[4], p1.len() as int);
}

#[verifier::rlimit(100)]
#[verifier::spinoff_prover]
proof fn lemma_md_update_tail(e: EntityDef)
    ensures
        crate::text::contains(md_update_text(e), lifecycle_lines(e)[5]),
        crate::text::contains(md_update_text(e), lifecycle_lines(e)[6]),
{
    let ls = lifecycle_lines(e);
    let t = md_update_text(e);
    let close = "        Ok(result)\n"@ + "    }\n\n"@;
    let st = ls[5] + Seq::<char>::empty() + ls[6] + close;
    assert(st.len() <= t.len() && t.subrange(t.len() - st.len(), t.len() as int) == st) by {
        assert(t.subrange(t.len() - st.len(), t.len() as int) =~= st);
    }
    lemma_holds_tail(t, ls[5], Seq::empty(), ls[6], close);
}

#[verifier::rlimit(100)]
#[verifier::spinoff_prover]
proof fn lemma_delete_lines(e: EntityDef)
    ensures
        crate::text::contains(crate::store::gen_crud::delete_text(e), lifecycle_lines(e)[7]),
        crate::text::contains(md_delete_text(e), lifecycle_lines(e)[7]),
{
    let snake = snake_spec(e.name@);
    let ls = lifecycle_lines(e);
    let t = crate::store::gen_crud::delete_text(e);
    let m = md_delete_text(e);
    let p = "    pub async fn delete_"@ + snake + "(&self, id: &str) -> Result<(), AppError> {\n"@;
    assert((p + ls[7]).len() <= t.len() && t.subrange(0, (p + ls[7]).len() as int) == p + ls[7]) by {
        reveal_strlit("        hooks::before_delete(self, id).await?;\n\n");
        reveal_strlit("        hooks::before_delete(self, id).await?;\n");
        assert(t.subrange(0, (p + ls[7]).len() as int) =~= p + ls[7]);
    }
    lemma_holds_after(t, p, ls[7]);
    assert((p + ls[7]).len() <= m.len() && m.subrange(0, (p + ls[7]).len() as int) == p + ls[7]) by {
        reveal_strlit("        hooks::before_delete(self, id).await?;\n\n");
        reveal_strlit("        hooks::before_delete(self, id).await?;\n");
        assert(m.subrange(0, (p + ls[7]).len() as int) =~= p + ls[7]);
    }
    lemma_holds_after(m, p, ls[7]);
}

#[verifier::rlimit(100)]
#[verifier::spinoff_prover]
proof fn lemma_delete_tail(e: EntityDef)
    ensures
        crate::text::contains(crate::store::gen_crud::delete_text(e), lifecycle_lines(e)[8]),
        crate::text::contains(crate::store::gen_crud::delete_text(e), lifecycle_lines(e)[9]),
        crate::text::contains(md_delete_text(e), lifecycle_lines(e)[8]),
        crate::text::contains(md_delete_text(e), lifecycle_lines(e)[9]),
{
    let ls = lifecycle_lines(e);
    let t = crate::store::gen_crud::delete_text(e);
    let m = md_delete_text(e);
    let close = "        Ok(())\n"@ + "    }\n\n"@;
    let st = ls[8] + "\n"@ + ls[9] + close;
    assert(st.len() <= t.len() && t.subrange(t.len() - st.len(), t.len() as int) == st) by {
        reveal_strlit(", id.to_string());\n\n");
        reveal_strlit(", id.to_string());\n");
        reveal_strlit("\n");
        assert(t.subrange(t.len() - st.len(), t.len() as int) =~= st);
    }
    lemma_holds_tail(t, ls[8], "\n"@, ls[9], close);
    let sm = ls[8] + Seq::<char>::empty() + ls[9] + close;
    assert(sm.len() <= m.len() && m.subrange(m.len() - sm.len(), m.len() as int) == sm) by {
        assert(m.subrange(m.len() - sm.len(), m.len() as int) =~= sm);
    }
    lemma_holds_tail(m, ls[8], Seq::empty(), ls[9], close);
}

/// The lifecycle parity of the two store backends: for each of `create`,
/// `update` and `delete`, the SeaORM method and its markdown counterpart
/// both hold the same `hooks::` calls and the same `emit_change` line, and
/// both `update` methods hold the change flags of the `has_many` fields
/// (the lines of [`lifecycle_lines`]).
#[verifier::rlimit(100)]
#[verifier::spinoff_prover]
pub proof fn law_backend_lifecycle_parity(e: EntityDef, has_relations: bool, slug: Option<Seq<char>>)
    ensures
        forall|i: int|
            0 <= i < 3 ==> crate::text::contains(crate::store::gen_crud::create_text(e, has_relations), #[trigger] lifecycle_lines(e)[i])
                && crate::text::contains(md_create_text(e, slug), lifecycle_lines(e)[i]),
        forall|i: int|
            3 <= i < 7 ==> crate::text::contains(crate::store::gen_crud::update_text(e, has_relations), #[trigger] lifecycle_lines(e)[i])
                && crate::text::contains(md_update_text(e), lifecycle_lines(e)[i]),
        forall|i: int|
            7 <= i < 10 ==> crate::text::contains(crate::store::gen_crud::delete_text(e), #[trigger] lifecycle_lines(e)[i])
                && crate::text::contains(md_delete_text(e), lifecycle_lines(e)[i]),
{
    lemma_sea_create_lines(e, has_relations);
    lemma_md_create_head(e, slug);
    lemma_md_create_tail(e, slug);
    lemma_sea_update_lines(e, has_relations);
    lemma_sea_update_flags(e, has_relations);
    lemma_sea_update_tail(e, has_relations);
    lemma_md_update_lines(e);
    lemma_md_update_tail(e);
    lemma_delete_lines(e);
    lemma_delete_tail(e);
    let ls = lifecycle_lines(e);
    assert forall|i: int| 0 <= i < 3 implies crate::text::contains(
        crate::store::gen_crud::create_text(e, has_relations),
        #[trigger] ls[i],
    ) && crate::text::contains(md_create_text(e, slug), ls[i]) by {
        if i == 0 {
        } else if i == 1 {
        } else {
        }
    }
    assert forall|i: int| 3 <= i < 7 implies crate::text::contains(
        crate::store::gen_crud::update_text(e, has_relations),
        #[trigger] ls[i],
    ) && crate::text::contains(md_update_text(e), ls[i]) by {
        if i == 3 {
        } else if i == 4 {
        } else if i == 5 {
        } else {
        }
    }
    assert forall|i: int| 7 <= i < 10 implies crate::text::contains(
        crate::store::gen_crud::delete_text(e),
        #[trigger] ls[i],
    ) && crate::text::contains(md_delete_text(e), ls[i]) by {
        if i == 7 {
        } else if i == 8 {
        } else {
        }
    }
}

} // verus!
