//! The data-model reference in markdown: one section per entity (doc,
//! table, field table, relations), then a Mermaid ER diagram over the
//! `belongs_to` relations.

use vstd::prelude::*;

use crate::docs::{
    belongs_to_target, enum_def, enum_def_spec, is_belongs_to_field, is_required, pick, required_spec,
    sorted_entities_spec, sorted_entity_order, target_of, DocsConfig,
};
use crate::order::{insert_by, lemma_insert_at, lex_le, lex_le_exec, sort_by};
use crate::schema::model::{EntityDef, EnumDef, EnumVariant, FieldDef, FieldType};
use crate::text::{join, join_exec, replace, replace_char, replace_char_exec, replace_exec, str_eq};

verus! {

// ─── Cells ──────────────────────────────────────────────────────────────────

/// Every `|` escaped as `\|`.
pub open spec fn escape_pipes_spec(t: Seq<char>) -> Seq<char> {
    replace(t, "|"@, "\\|"@)
}

/// A `|` inside a cell ends the cell, so escape it.
pub fn escape_pipes(text: &str) -> (r: String)
    ensures
        r@ == escape_pipes_spec(text@),
{
    proof {
        reveal_strlit("|");
    }
    replace_exec(text, "|", "\\|")
}

/// The wire type of a field type that names no declared enum.
pub open spec fn wire_type(ft: FieldType) -> Seq<char> {
    match ft {
        FieldType::VecString => "string[]"@,
        FieldType::VecStruct(_) => "object[]"@,
        FieldType::I32 => "integer"@,
        FieldType::OptionI32 => "integer"@,
        FieldType::I64 => "integer"@,
        FieldType::OptionI64 => "integer"@,
        FieldType::F32 => "number"@,
        FieldType::OptionF32 => "number"@,
        FieldType::F64 => "number"@,
        FieldType::OptionF64 => "number"@,
        FieldType::Bool => "boolean"@,
        FieldType::OptionBool => "boolean"@,
        _ => "string"@,
    }
}

/// The escaped wire values of an enum's variants.
pub open spec fn escaped_values(vs: Seq<EnumVariant>) -> Seq<Seq<char>> {
    vs.map_values(|v: EnumVariant| escape_pipes_spec(v.value@))
}

/// The type column: an enum prints its values, anything else its wire
/// type.
pub open spec fn type_cell(f: FieldDef, enums: Seq<EnumDef>) -> Seq<char> {
    match enum_def_spec(f, enums) {
        Some(i) => "enum("@ + join(escaped_values(enums[i].variants@), ", "@) + ")"@,
        None => wire_type(f.field_type),
    }
}

/// The type column's vocabulary: a wire type, not the Rust type. An enum
/// prints its values, since the closed set is the contract.
pub fn field_type(field: &FieldDef, enums: &Vec<EnumDef>) -> (r: String)
    ensures
        r@ == type_cell(*field, enums@),
{
    match enum_def(field, enums) {
        Some(i) => {
            let variants = &enums[i].variants;
            let mut values: Vec<String> = Vec::new();
            let mut k: usize = 0;
            while k < variants.len()
                invariant
                    k <= variants.len(),
                    values.deep_view() == escaped_values(variants@.subrange(0, k as int)),
                decreases variants.len() - k,
            {
                let ghost before = values.deep_view();
                values.push(escape_pipes(variants[k].value.as_str()));
                assert(escaped_values(variants@.subrange(0, k + 1)) =~= before.push(
                    escape_pipes_spec(variants@[k as int].value@),
                ));
                k = k + 1;
            }
            assert(variants@.subrange(0, k as int) =~= variants@);
            let joined = join_exec(&values, ", ");
            let mut r = String::from_str("enum(");
            r.append(joined.as_str());
            r.append(")");
            r
        },
        None => match &field.field_type {
            FieldType::VecString => String::from_str("string[]"),
            FieldType::VecStruct(_) => String::from_str("object[]"),
            FieldType::I32 | FieldType::OptionI32 | FieldType::I64 | FieldType::OptionI64 => String::from_str(
                "integer",
            ),
            FieldType::F32 | FieldType::OptionF32 | FieldType::F64 | FieldType::OptionF64 => String::from_str(
                "number",
            ),
            FieldType::Bool | FieldType::OptionBool => String::from_str("boolean"),
            _ => String::from_str("string"),
        },
    }
}

/// A field's doc on one line, its pipes escaped.
pub open spec fn doc_cell(doc: Seq<char>) -> Seq<char> {
    escape_pipes_spec(replace_char(doc, '\n', ' '))
}

/// One row of the field table.
pub open spec fn field_row(f: FieldDef, enums: Seq<EnumDef>) -> Seq<char> {
    "| "@ + f.name@ + " | "@ + type_cell(f, enums) + " | "@ + (if required_spec(f) {
        "yes"@
    } else {
        "no"@
    }) + " | "@ + doc_cell(f.doc@) + " |"@
}

/// The rows of the field table: the header, the rule, then one row per
/// field in declaration order.
pub open spec fn table_rows(fs: Seq<FieldDef>, enums: Seq<EnumDef>) -> Seq<Seq<char>> {
    seq!["| field | type | required | doc |"@, "|---|---|---|---|"@] + fs.map_values(
        |f: FieldDef| field_row(f, enums),
    )
}

/// The `field | type | required | doc` table of an entity.
pub open spec fn field_table_spec(e: EntityDef, enums: Seq<EnumDef>) -> Seq<char> {
    join(table_rows(e.fields@, enums), "\n"@)
}

/// The `field | type | required | doc` table, in field declaration order.
pub fn field_table(entity: &EntityDef, enums: &Vec<EnumDef>) -> (r: String)
    ensures
        r@ == field_table_spec(*entity, enums@),
{
    let mut rows: Vec<String> = Vec::new();
    rows.push(String::from_str("| field | type | required | doc |"));
    rows.push(String::from_str("|---|---|---|---|"));
    let ghost head = rows.deep_view();
    let mut i: usize = 0;
    while i < entity.fields.len()
        invariant
            i <= entity.fields.len(),
            head == seq!["| field | type | required | doc |"@, "|---|---|---|---|"@],
            rows.deep_view() == head + entity.fields@.subrange(0, i as int).map_values(
                |f: FieldDef| field_row(f, enums@),
            ),
        decreases entity.fields.len() - i,
    {
        let field = &entity.fields[i];
        let required = if is_required(field) {
            "yes"
        } else {
            "no"
        };
        let flat = replace_char_exec(field.doc.as_str(), '\n', ' ');
        let doc = escape_pipes(flat.as_str());
        let t = field_type(field, enums);
        let mut row = String::from_str("| ");
        row.append(field.name.as_str());
        row.append(" | ");
        row.append(t.as_str());
        row.append(" | ");
        row.append(required);
        row.append(" | ");
        row.append(doc.as_str());
        row.append(" |");
        let ghost before = rows.deep_view();
        rows.push(row);
        assert(entity.fields@.subrange(0, i + 1).map_values(|f: FieldDef| field_row(f, enums@))
            =~= entity.fields@.subrange(0, i as int).map_values(|f: FieldDef| field_row(f, enums@)).push(
            field_row(*field, enums@),
        ));
        assert(rows.deep_view() =~= before.push(field_row(*field, enums@)));
        i = i + 1;
    }
    assert(entity.fields@.subrange(0, i as int) =~= entity.fields@);
    assert(rows.deep_view() =~= table_rows(entity.fields@, enums@));
    join_exec(&rows, "\n")
}

// ─── Relations ──────────────────────────────────────────────────────────────

/// `- belongs to {target} via `{field}`` for each `belongs_to` field.
pub open spec fn own_lines(fs: Seq<FieldDef>) -> Seq<Seq<char>>
    decreases fs.len(),
{
    if fs.len() == 0 {
        Seq::empty()
    } else {
        let f = fs.last();
        own_lines(fs.drop_last()) + if is_belongs_to_field(f) {
            seq!["- belongs to "@ + target_of(f) + " via `"@ + f.name@ + "`"@]
        } else {
            Seq::empty()
        }
    }
}

/// `- referenced by {other}.`{field}`` for each `belongs_to` field of
/// `other` that targets `name`.
pub open spec fn ref_lines_in(name: Seq<char>, other: EntityDef, fs: Seq<FieldDef>) -> Seq<Seq<char>>
    decreases fs.len(),
{
    if fs.len() == 0 {
        Seq::empty()
    } else {
        let f = fs.last();
        ref_lines_in(name, other, fs.drop_last()) + if is_belongs_to_field(f) && target_of(f) == name {
            seq!["- referenced by "@ + other.name@ + ".`"@ + f.name@ + "`"@]
        } else {
            Seq::empty()
        }
    }
}

/// The referencing lines of every entity of `others`, in order.
pub open spec fn ref_lines(name: Seq<char>, others: Seq<EntityDef>) -> Seq<Seq<char>>
    decreases others.len(),
{
    if others.len() == 0 {
        Seq::empty()
    } else {
        ref_lines(name, others.drop_last()) + ref_lines_in(name, others.last(), others.last().fields@)
    }
}

/// The relations block of an entity, or `None` when it has no relation in
/// either direction.
pub open spec fn relations_spec(e: EntityDef, others: Seq<EntityDef>) -> Option<Seq<char>> {
    let lines = own_lines(e.fields@) + ref_lines(e.name@, others);
    if lines.len() == 0 {
        None
    } else {
        Some("Relations:\n"@ + join(lines, "\n"@))
    }
}

/// The relations block, or `None` when the entity has no relation in either
/// direction: what it belongs to, then what references it, the others
/// taken in the order `order` gives.
pub fn relations(entity: &EntityDef, entities: &Vec<EntityDef>, order: &Vec<usize>) -> (r: Option<String>)
    requires
        forall|i: int| 0 <= i < order@.len() ==> #[trigger] order@[i] < entities@.len(),
    ensures
        match r {
            Some(t) => relations_spec(*entity, pick(entities@, order@)) == Some(t@),
            None => relations_spec(*entity, pick(entities@, order@)) is None,
        },
{
    let mut lines: Vec<String> = Vec::new();
    let mut i: usize = 0;
    assert(entity.fields@.subrange(0, 0) =~= Seq::<FieldDef>::empty());
    while i < entity.fields.len()
        invariant
            i <= entity.fields.len(),
            lines.deep_view() == own_lines(entity.fields@.subrange(0, i as int)),
        decreases entity.fields.len() - i,
    {
        let field = &entity.fields[i];
        let ghost s = entity.fields@.subrange(0, i + 1);
        assert(s.drop_last() =~= entity.fields@.subrange(0, i as int));
        assert(s.last() == *field);
        match belongs_to_target(field) {
            Some(target) => {
                let mut line = String::from_str("- belongs to ");
                line.append(target.as_str());
                line.append(" via `");
                line.append(field.name.as_str());
                line.append("`");
                let ghost before = lines.deep_view();
                lines.push(line);
                assert(lines.deep_view() =~= before + seq![line@]);
            },
            None => {
                assert(lines.deep_view() =~= lines.deep_view() + Seq::<Seq<char>>::empty());
            },
        }
        i = i + 1;
    }
    assert(entity.fields@.subrange(0, i as int) =~= entity.fields@);
    let ghost own = lines.deep_view();
    let ghost others = pick(entities@, order@);
    let mut k: usize = 0;
    assert(others.subrange(0, 0) =~= Seq::<EntityDef>::empty());
    assert(own =~= own + ref_lines(entity.name@, others.subrange(0, 0)));
    while k < order.len()
        invariant
            k <= order.len(),
            others == pick(entities@, order@),
            forall|q: int| 0 <= q < order@.len() ==> #[trigger] order@[q] < entities@.len(),
            lines.deep_view() == own + ref_lines(entity.name@, others.subrange(0, k as int)),
        decreases order.len() - k,
    {
        let other = &entities[order[k]];
        let ghost so = others.subrange(0, k + 1);
        assert(so.drop_last() =~= others.subrange(0, k as int));
        assert(so.last() == *other);
        let ghost start = lines.deep_view();
        let mut j: usize = 0;
        assert(other.fields@.subrange(0, 0) =~= Seq::<FieldDef>::empty());
        assert(start =~= start + ref_lines_in(entity.name@, *other, other.fields@.subrange(0, 0)));
        while j < other.fields.len()
            invariant
                j <= other.fields.len(),
                lines.deep_view() == start + ref_lines_in(entity.name@, *other, other.fields@.subrange(0, j as int)),
            decreases other.fields.len() - j,
        {
            let field = &other.fields[j];
            let ghost fs = other.fields@.subrange(0, j + 1);
            assert(fs.drop_last() =~= other.fields@.subrange(0, j as int));
            assert(fs.last() == *field);
            match belongs_to_target(field) {
                Some(target) => {
                    if str_eq(target.as_str(), entity.name.as_str()) {
                        let mut line = String::from_str("- referenced by ");
                        line.append(other.name.as_str());
                        line.append(".`");
                        line.append(field.name.as_str());
                        line.append("`");
                        let ghost before = lines.deep_view();
                        lines.push(line);
                        assert(lines.deep_view() =~= before + seq![line@]);
                    } else {
                        assert(lines.deep_view() =~= lines.deep_view() + Seq::<Seq<char>>::empty());
                    }
                },
                None => {
                    assert(lines.deep_view() =~= lines.deep_view() + Seq::<Seq<char>>::empty());
                },
            }
            j = j + 1;
        }
        assert(other.fields@.subrange(0, j as int) =~= other.fields@);
        k = k + 1;
    }
    assert(others.subrange(0, k as int) =~= others);
    if lines.len() == 0 {
        return None;
    }
    let joined = join_exec(&lines, "\n");
    let mut r = String::from_str("Relations:\n");
    r.append(joined.as_str());
    Some(r)
}

// ─── ER diagram ─────────────────────────────────────────────────────────────

/// An edge of the ER diagram: (target, entity, field).
pub type Edge = (Seq<char>, Seq<char>, Seq<char>);

/// `a` sorts strictly before `b`.
pub open spec fn lex_lt(a: Seq<char>, b: Seq<char>) -> bool {
    lex_le(a, b) && a != b
}

/// The lexicographic order of edges, as tuples of strings compare.
pub open spec fn edge_le(a: Edge, b: Edge) -> bool {
    ||| lex_lt(a.0, b.0)
    ||| (a.0 == b.0 && lex_lt(a.1, b.1))
    ||| (a.0 == b.0 && a.1 == b.1 && lex_le(a.2, b.2))
}

/// The edge order as a spec function value.
pub open spec fn edge_le_fn() -> spec_fn(Edge, Edge) -> bool {
    |a: Edge, b: Edge| edge_le(a, b)
}

/// The edges of one entity's `belongs_to` fields.
pub open spec fn entity_edges(e: EntityDef, fs: Seq<FieldDef>) -> Seq<Edge>
    decreases fs.len(),
{
    if fs.len() == 0 {
        Seq::empty()
    } else {
        let f = fs.last();
        entity_edges(e, fs.drop_last()) + if is_belongs_to_field(f) {
            seq![(target_of(f), e.name@, f.name@)]
        } else {
            Seq::empty()
        }
    }
}

/// The edges of all entities, in order.
pub open spec fn all_edges(es: Seq<EntityDef>) -> Seq<Edge>
    decreases es.len(),
{
    if es.len() == 0 {
        Seq::empty()
    } else {
        all_edges(es.drop_last()) + entity_edges(es.last(), es.last().fields@)
    }
}

/// One diagram line: `  {target} ||--o{ {entity} : "{field}"`.
pub open spec fn edge_line(e: Edge) -> Seq<char> {
    "  "@ + e.0 + " ||--o{ "@ + e.1 + " : \""@ + e.2 + "\""@
}

/// The Mermaid ER diagram over the entities' `belongs_to` edges, sorted.
pub open spec fn er_spec(es: Seq<EntityDef>) -> Seq<char> {
    join(
        seq!["```mermaid"@, "erDiagram"@] + sort_by(all_edges(es), edge_le_fn()).map_values(|e: Edge| edge_line(e))
            + seq!["```"@],
        "\n"@,
    )
}

/// The edge at an (entity, field) position.
pub open spec fn edge_at(es: Seq<EntityDef>, p: (usize, usize)) -> Edge {
    let e = es[p.0 as int];
    let f = e.fields@[p.1 as int];
    (target_of(f), e.name@, f.name@)
}

/// The edges at a list of positions.
pub open spec fn edges_at(es: Seq<EntityDef>, ps: Seq<(usize, usize)>) -> Seq<Edge> {
    Seq::new(ps.len(), |i: int| edge_at(es, ps[i]))
}

/// The positions are those of `belongs_to` fields.
pub open spec fn valid_edges(es: Seq<EntityDef>, ps: Seq<(usize, usize)>) -> bool {
    forall|i: int|
        0 <= i < ps.len() ==> {
            let p = #[trigger] ps[i];
            &&& p.0 < es.len()
            &&& p.1 < es[p.0 as int].fields@.len()
            &&& is_belongs_to_field(es[p.0 as int].fields@[p.1 as int])
        }
}

fn edge_le_exec(es: &Vec<EntityDef>, a: (usize, usize), b: (usize, usize)) -> (r: bool)
    requires
        valid_edges(es@, seq![a, b]),
    ensures
        r == edge_le(edge_at(es@, a), edge_at(es@, b)),
{
    assert(seq![a, b][0] == a && seq![a, b][1] == b);
    let ea = &es[a.0];
    let eb = &es[b.0];
    let fa = &ea.fields[a.1];
    let fb = &eb.fields[b.1];
    let ta: &str = match belongs_to_target(fa) {
        Some(t) => t.as_str(),
        None => "",
    };
    let tb: &str = match belongs_to_target(fb) {
        Some(t) => t.as_str(),
        None => "",
    };
    proof {
        reveal_strlit("");
        assert(ta@ == target_of(*fa));
        assert(tb@ == target_of(*fb));
    }
    let t_eq = str_eq(ta, tb);
    if !t_eq {
        return lex_le_exec(ta, tb);
    }
    let n_eq = str_eq(ea.name.as_str(), eb.name.as_str());
    if !n_eq {
        return lex_le_exec(ea.name.as_str(), eb.name.as_str());
    }
    lex_le_exec(fa.name.as_str(), fb.name.as_str())
}

/// One `erDiagram` line per `belongs_to`, sorted by (target, entity,
/// field); an entity with no relation does not appear.
pub fn er_diagram(entities: &Vec<EntityDef>, order: &Vec<usize>) -> (r: String)
    requires
        forall|i: int| 0 <= i < order@.len() ==> #[trigger] order@[i] < entities@.len(),
    ensures
        r@ == er_spec(pick(entities@, order@)),
{
    let ghost sorted = pick(entities@, order@);
    let mut edges: Vec<(usize, usize)> = Vec::new();
    let mut k: usize = 0;
    assert(sorted.subrange(0, 0) =~= Seq::<EntityDef>::empty());
    assert(edges_at(entities@, edges@) =~= all_edges(sorted.subrange(0, 0)));
    while k < order.len()
        invariant
            k <= order.len(),
            sorted == pick(entities@, order@),
            forall|q: int| 0 <= q < order@.len() ==> #[trigger] order@[q] < entities@.len(),
            valid_edges(entities@, edges@),
            edges_at(entities@, edges@) == all_edges(sorted.subrange(0, k as int)),
        decreases order.len() - k,
    {
        let idx = order[k];
        let entity = &entities[idx];
        let ghost so = sorted.subrange(0, k + 1);
        assert(so.drop_last() =~= sorted.subrange(0, k as int));
        assert(so.last() == *entity);
        let ghost start = edges_at(entities@, edges@);
        let mut j: usize = 0;
        assert(entity.fields@.subrange(0, 0) =~= Seq::<FieldDef>::empty());
        assert(start =~= start + entity_edges(*entity, entity.fields@.subrange(0, 0)));
        while j < entity.fields.len()
            invariant
                j <= entity.fields.len(),
                idx < entities@.len(),
                *entity == entities@[idx as int],
                valid_edges(entities@, edges@),
                edges_at(entities@, edges@) == start + entity_edges(*entity, entity.fields@.subrange(0, j as int)),
            decreases entity.fields.len() - j,
        {
            let field = &entity.fields[j];
            let ghost fs = entity.fields@.subrange(0, j + 1);
            assert(fs.drop_last() =~= entity.fields@.subrange(0, j as int));
            assert(fs.last() == *field);
            let ghost before = edges_at(entities@, edges@);
            if belongs_to_target(field).is_some() {
                edges.push((idx, j));
                assert(edges_at(entities@, edges@) =~= before + seq![(target_of(*field), entity.name@, field.name@)]);
            } else {
                assert(before =~= before + Seq::<Edge>::empty());
            }
            j = j + 1;
        }
        assert(entity.fields@.subrange(0, j as int) =~= entity.fields@);
        k = k + 1;
    }
    assert(sorted.subrange(0, k as int) =~= sorted);
    let ghost all = edges_at(entities@, edges@);
    let mut out: Vec<(usize, usize)> = Vec::new();
    let mut n: usize = 0;
    assert(all.subrange(0, 0) =~= Seq::<Edge>::empty());
    assert(edges_at(entities@, out@) =~= Seq::<Edge>::empty());
    while n < edges.len()
        invariant
            n <= edges.len(),
            valid_edges(entities@, edges@),
            valid_edges(entities@, out@),
            all == edges_at(entities@, edges@),
            edges_at(entities@, out@) == sort_by(all.subrange(0, n as int), edge_le_fn()),
        decreases edges.len() - n,
    {
        let x = edges[n];
        let mut j: usize = 0;
        while j < out.len() && edge_le_exec(entities, out[j], x)
            invariant
                j <= out.len(),
                n < edges.len(),
                x == edges@[n as int],
                valid_edges(entities@, edges@),
                valid_edges(entities@, out@),
                forall|i: int| 0 <= i < j ==> edge_le(edge_at(entities@, #[trigger] out@[i]), edge_at(entities@, x)),
            decreases out.len() - j,
        {
            proof {
                assert(valid_edges(entities@, seq![out@[j as int], x])) by {
                    assert(seq![out@[j as int], x][0] == out@[j as int]);
                    assert(seq![out@[j as int], x][1] == x);
                }
            }
            j = j + 1;
        }
        let ghost before = edges_at(entities@, out@);
        proof {
            let xe = edge_at(entities@, x);
            assert forall|q: int| 0 <= q < j implies #[trigger] edge_le_fn()(before[q], xe) by {
                assert(before[q] == edge_at(entities@, out@[q]));
            }
            if j < out.len() {
                assert(valid_edges(entities@, seq![out@[j as int], x])) by {
                    assert(seq![out@[j as int], x][0] == out@[j as int]);
                    assert(seq![out@[j as int], x][1] == x);
                }
                assert(!edge_le_fn()(before[j as int], xe));
            }
            lemma_insert_at(before, xe, j as int, edge_le_fn());
            let sub = all.subrange(0, n + 1);
            assert(sub.drop_last() =~= all.subrange(0, n as int));
            assert(sub.last() == xe);
        }
        out.insert(j, x);
        assert(edges_at(entities@, out@) =~= before.insert(j as int, edge_at(entities@, x)));
        n = n + 1;
    }
    assert(all.subrange(0, n as int) =~= all);
    let mut lines: Vec<String> = Vec::new();
    lines.push(String::from_str("```mermaid"));
    lines.push(String::from_str("erDiagram"));
    let ghost head = lines.deep_view();
    let ghost sorted_edges = edges_at(entities@, out@);
    let mut m: usize = 0;
    while m < out.len()
        invariant
            m <= out.len(),
            valid_edges(entities@, out@),
            sorted_edges == edges_at(entities@, out@),
            head == seq!["```mermaid"@, "erDiagram"@],
            lines.deep_view() == head + sorted_edges.subrange(0, m as int).map_values(|e: Edge| edge_line(e)),
        decreases out.len() - m,
    {
        let p = out[m];
        let entity = &entities[p.0];
        let field = &entity.fields[p.1];
        let target: &str = match belongs_to_target(field) {
            Some(t) => t.as_str(),
            None => "",
        };
        proof {
            reveal_strlit("");
            assert(target@ == target_of(*field));
        }
        let mut line = String::from_str("  ");
        line.append(target);
        line.append(" ||--o{ ");
        line.append(entity.name.as_str());
        line.append(" : \"");
        line.append(field.name.as_str());
        line.append("\"");
        let ghost prev = lines.deep_view();
        lines.push(line);
        assert(sorted_edges.subrange(0, m + 1).map_values(|e: Edge| edge_line(e)) =~= sorted_edges.subrange(
            0,
            m as int,
        ).map_values(|e: Edge| edge_line(e)).push(edge_line(sorted_edges[m as int])));
        assert(lines.deep_view() =~= prev.push(edge_line(sorted_edges[m as int])));
        m = m + 1;
    }
    assert(sorted_edges.subrange(0, m as int) =~= sorted_edges);
    lines.push(String::from_str("```"));
    assert(lines.deep_view() =~= seq!["```mermaid"@, "erDiagram"@] + sort_by(all_edges(sorted), edge_le_fn()).map_values(
        |e: Edge| edge_line(e),
    ) + seq!["```"@]);
    join_exec(&lines, "\n")
}

// ─── The document ───────────────────────────────────────────────────────────

/// The blocks of one entity's section: heading, doc when there is one,
/// table name, field table, and relations when there are any.
pub open spec fn entity_section(e: EntityDef, enums: Seq<EnumDef>, others: Seq<EntityDef>) -> Seq<Seq<char>> {
    seq!["## "@ + e.name@] + (if e.doc@.len() > 0 {
        seq![e.doc@]
    } else {
        Seq::empty()
    }) + seq!["Table: `"@ + e.table@ + "`"@, field_table_spec(e, enums)] + match relations_spec(e, others) {
        Some(r) => seq![r],
        None => Seq::empty(),
    }
}

/// The sections of the entities of `es`, in order.
pub open spec fn sections(es: Seq<EntityDef>, enums: Seq<EnumDef>, others: Seq<EntityDef>) -> Seq<Seq<char>>
    decreases es.len(),
{
    if es.len() == 0 {
        Seq::empty()
    } else {
        sections(es.drop_last(), enums, others) + entity_section(es.last(), enums, others)
    }
}

/// The whole reference: title, revision line, one section per entity in
/// name order, the ER diagram; blocks joined by a blank line and the
/// document ending with a newline.
pub open spec fn render_spec(es: Seq<EntityDef>, enums: Seq<EnumDef>, title: Seq<char>, rev: Seq<char>) -> Seq<char> {
    let sorted = sorted_entities_spec(es);
    join(
        seq!["# "@ + title, "Generated from the schema. Do not edit. Schema revision `"@ + rev + "`."@] + sections(
            sorted,
            enums,
            sorted,
        ) + seq!["## Entity relationship diagram"@, er_spec(sorted)],
        "\n\n"@,
    ) + "\n"@
}

/// Render the whole reference.
pub fn render(entities: &Vec<EntityDef>, enums: &Vec<EnumDef>, config: &DocsConfig, revision: &str) -> (r: String)
    ensures
        r@ == render_spec(entities@, enums@, config.title@, revision@),
{
    let order = sorted_entity_order(entities);
    let ghost sorted = pick(entities@, order@);
    let mut blocks: Vec<String> = Vec::new();
    let mut title = String::from_str("# ");
    title.append(config.title.as_str());
    blocks.push(title);
    let mut rev = String::from_str("Generated from the schema. Do not edit. Schema revision `");
    rev.append(revision);
    rev.append("`.");
    blocks.push(rev);
    let ghost head = blocks.deep_view();
    let mut k: usize = 0;
    assert(sorted.subrange(0, 0) =~= Seq::<EntityDef>::empty());
    assert(head =~= head + sections(sorted.subrange(0, 0), enums@, sorted));
    while k < order.len()
        invariant
            k <= order.len(),
            sorted == pick(entities@, order@),
            forall|q: int| 0 <= q < order@.len() ==> #[trigger] order@[q] < entities@.len(),
            blocks.deep_view() == head + sections(sorted.subrange(0, k as int), enums@, sorted),
        decreases order.len() - k,
    {
        let entity = &entities[order[k]];
        let ghost so = sorted.subrange(0, k + 1);
        assert(so.drop_last() =~= sorted.subrange(0, k as int));
        assert(so.last() == *entity);
        let ghost start = blocks.deep_view();
        let mut heading = String::from_str("## ");
        heading.append(entity.name.as_str());
        blocks.push(heading);
        let ghost g1 = blocks.deep_view();
        assert(g1 =~= start + seq!["## "@ + entity.name@]);
        proof {
            reveal_strlit("");
            assert(entity.doc@.len() == 0 ==> entity.doc@ =~= ""@);
        }
        if !str_eq(entity.doc.as_str(), "") {
            blocks.push(entity.doc.clone());
            assert(blocks.deep_view() =~= g1 + seq![entity.doc@]);
        } else {
            assert(blocks.deep_view() =~= g1 + Seq::<Seq<char>>::empty());
        }
        let ghost g2 = blocks.deep_view();
        assert(g2 == start + seq!["## "@ + entity.name@] + (if entity.doc@.len() > 0 {
            seq![entity.doc@]
        } else {
            Seq::<Seq<char>>::empty()
        }));
        let mut table = String::from_str("Table: `");
        table.append(entity.table.as_str());
        table.append("`");
        blocks.push(table);
        blocks.push(field_table(entity, enums));
        let ghost g3 = blocks.deep_view();
        assert(g3 =~= g2 + seq!["Table: `"@ + entity.table@ + "`"@, field_table_spec(*entity, enums@)]);
        let rel = relations(entity, entities, &order);
        match rel {
            Some(r) => {
                blocks.push(r);
                assert(blocks.deep_view() =~= g3 + seq![r@]);
            },
            None => {
                assert(blocks.deep_view() =~= g3 + Seq::<Seq<char>>::empty());
            },
        }
        proof {
            let sec = entity_section(*entity, enums@, sorted);
            assert(blocks.deep_view() =~= start + sec);
        }
        k = k + 1;
    }
    assert(sorted.subrange(0, k as int) =~= sorted);
    let ghost mid = blocks.deep_view();
    blocks.push(String::from_str("## Entity relationship diagram"));
    blocks.push(er_diagram(entities, &order));
    assert(head =~= seq!["# "@ + config.title@, "Generated from the schema. Do not edit. Schema revision `"@ + revision@ + "`."@]);
    assert(blocks.deep_view() =~= mid + seq!["## Entity relationship diagram"@, er_spec(sorted)]);
    let mut out = join_exec(&blocks, "\n\n");
    out.append("\n");
    out
}

} // verus!
