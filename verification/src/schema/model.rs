//! The entity model every generator reads: entities, their fields, field
//! types and roles, relations, and string enums.

use vstd::prelude::*;

verus! {

/// How a relation field relates its entity to the target.
#[derive(Debug, Clone, Copy, PartialEq, Eq, Structural)]
pub enum RelationKind {
    /// FK column on this table (many-to-one).
    BelongsTo,
    /// Reverse of a `belongs_to` on the target.
    HasMany,
    /// Junction table.
    ManyToMany,
}

/// A relation declared on a field.
#[derive(Debug, Clone, PartialEq, Eq)]
pub struct RelationInfo {
    /// The relation kind.
    pub kind: RelationKind,
    /// The target entity (PascalCase).
    pub target: String,
    /// Junction table override for `many_to_many`.
    pub junction: Option<String>,
    /// Foreign key on the target for `has_many`.
    pub foreign_key: Option<String>,
}

/// What a field is to its entity.
#[derive(Debug, Clone, PartialEq, Eq)]
pub enum FieldRole {
    /// The primary key.
    Id,
    /// The markdown body.
    Body,
    /// An ordinary field.
    Plain,
    /// A field holding a string enum.
    EnumField,
    /// A field excluded from persistence and DTOs.
    Skip,
    /// A relation to another entity.
    Relation(RelationInfo),
}

/// The simplified Rust type of a field.
#[derive(Debug, Clone, PartialEq, Eq)]
pub enum FieldType {
    String,
    OptionString,
    OptionEnum(String),
    VecString,
    VecStruct(String),
    I32,
    OptionI32,
    I64,
    OptionI64,
    F32,
    OptionF32,
    F64,
    OptionF64,
    Bool,
    OptionBool,
    /// Any other type, as its rendered tokens.
    Other(String),
}

/// A field type built from Rust's own types only: neither an enum, nor a
/// list of structs, nor a type outside the simplified set.
pub open spec fn is_builtin_type(ft: FieldType) -> bool {
    !(ft is OptionEnum || ft is VecStruct || ft is Other)
}

/// One field of an entity.
#[derive(Debug, Clone, PartialEq, Eq)]
pub struct FieldDef {
    /// Field name.
    pub name: String,
    /// Doc comment text.
    pub doc: String,
    /// Simplified type.
    pub field_type: FieldType,
    /// Role.
    pub role: FieldRole,
    /// Whether the field carries `#[serde(default)]`.
    pub serde_default: bool,
    /// Whether a list field is rendered one item per line.
    pub multiline_list: bool,
    /// Default value expression, if declared.
    pub default_value: Option<String>,
}

/// An entity parsed from the schema.
#[derive(Debug, Clone, PartialEq, Eq)]
pub struct EntityDef {
    /// Type name (PascalCase).
    pub name: String,
    /// Doc comment text.
    pub doc: String,
    /// Markdown directory.
    pub directory: String,
    /// SQL table name.
    pub table: String,
    /// Type discriminator.
    pub type_tag: String,
    /// Id prefix.
    pub prefix: String,
    /// Fields in declaration order.
    pub fields: Vec<FieldDef>,
}

/// One variant of a string enum.
#[derive(Debug, Clone, PartialEq, Eq)]
pub struct EnumVariant {
    /// Variant name.
    pub name: String,
    /// Wire value.
    pub value: String,
}

/// A string enum declared beside the entities.
#[derive(Debug, Clone, PartialEq, Eq)]
pub struct EnumDef {
    /// Enum name.
    pub name: String,
    /// Variants in declaration order.
    pub variants: Vec<EnumVariant>,
}

/// The field is a relation of kind `k`.
pub open spec fn is_relation_of(f: FieldDef, k: RelationKind) -> bool {
    match f.role {
        FieldRole::Relation(info) => info.kind == k,
        _ => false,
    }
}

/// The field is a `many_to_many` relation (one with a junction table).
pub open spec fn is_junction(f: FieldDef) -> bool {
    is_relation_of(f, RelationKind::ManyToMany)
}

/// The field is a `has_many` relation.
pub open spec fn is_has_many(f: FieldDef) -> bool {
    is_relation_of(f, RelationKind::HasMany)
}

/// The field has the role `Id`.
pub open spec fn is_id(f: FieldDef) -> bool {
    f.role is Id
}

/// The field has the role `Body`.
pub open spec fn is_body(f: FieldDef) -> bool {
    f.role is Body
}

/// The first field satisfying `p`, as an index.
pub open spec fn first_index(fields: Seq<FieldDef>, p: spec_fn(FieldDef) -> bool) -> Option<int>
    decreases fields.len(),
{
    if fields.len() == 0 {
        None
    } else if p(fields[0]) {
        Some(0)
    } else {
        match first_index(fields.subrange(1, fields.len() as int), p) {
            Some(i) => Some(i + 1),
            None => None,
        }
    }
}

/// Some field satisfies `p`.
pub open spec fn any_field(fields: Seq<FieldDef>, p: spec_fn(FieldDef) -> bool) -> bool {
    exists|i: int| 0 <= i < fields.len() && #[trigger] p(fields[i])
}

/// The entity's body field: its first field with role `Body`.
pub open spec fn body_of(e: EntityDef) -> Option<FieldDef> {
    match first_index(e.fields@, |f: FieldDef| is_body(f)) {
        Some(i) => Some(e.fields@[i]),
        None => None,
    }
}

/// The entity's id field: its first field with role `Id`.
pub open spec fn id_of(e: EntityDef) -> Option<FieldDef> {
    match first_index(e.fields@, |f: FieldDef| is_id(f)) {
        Some(i) => Some(e.fields@[i]),
        None => None,
    }
}

/// The entity has a junction or has-many relation.
pub open spec fn has_relations_spec(e: EntityDef) -> bool {
    any_field(e.fields@, |f: FieldDef| is_junction(f)) || any_field(e.fields@, |f: FieldDef| is_has_many(f))
}

pub proof fn lemma_first_index(fields: Seq<FieldDef>, p: spec_fn(FieldDef) -> bool)
    ensures
        first_index(fields, p) matches Some(i) ==> 0 <= i < fields.len() && p(fields[i]) && forall|j: int|
            0 <= j < i ==> !p(#[trigger] fields[j]),
        first_index(fields, p) is None ==> forall|j: int| 0 <= j < fields.len() ==> !p(#[trigger] fields[j]),
    decreases fields.len(),
{
    if fields.len() > 0 && !p(fields[0]) {
        let t = fields.subrange(1, fields.len() as int);
        lemma_first_index(t, p);
        assert forall|j: int| 1 <= j < fields.len() implies fields[j] == t[j - 1] by {}
    }
}

/// The index of the first field satisfying `role` test `which`: 0 for `Id`,
/// 1 for `Body`.
fn find_role(fields: &Vec<FieldDef>, want_body: bool) -> (r: Option<usize>)
    ensures
        r matches Some(i) ==> i < fields.len(),
        match r {
            Some(i) => first_index(
                fields@,
                if want_body {
                    |f: FieldDef| is_body(f)
                } else {
                    |f: FieldDef| is_id(f)
                },
            ) == Some(i as int),
            None => first_index(
                fields@,
                if want_body {
                    |f: FieldDef| is_body(f)
                } else {
                    |f: FieldDef| is_id(f)
                },
            ) is None,
        },
{
    let ghost p = if want_body {
        |f: FieldDef| is_body(f)
    } else {
        |f: FieldDef| is_id(f)
    };
    let mut i: usize = 0;
    assert(fields@.subrange(0, fields@.len() as int) =~= fields@);
    while i < fields.len()
        invariant
            i <= fields.len(),
            p == (if want_body {
                |f: FieldDef| is_body(f)
            } else {
                |f: FieldDef| is_id(f)
            }),
            first_index(fields@, p) == (match first_index(fields@.subrange(i as int, fields@.len() as int), p) {
                Some(j) => Some(j + i),
                None => None,
            }),
        decreases fields.len() - i,
    {
        let ghost t = fields@.subrange(i as int, fields@.len() as int);
        assert(t[0] == fields@[i as int]);
        let hit = match fields[i].role {
            FieldRole::Body => want_body,
            FieldRole::Id => !want_body,
            _ => false,
        };
        if hit {
            assert(p(t[0]));
            return Some(i);
        }
        assert(t.subrange(1, t.len() as int) =~= fields@.subrange(i + 1, fields@.len() as int));
        i = i + 1;
    }
    None
}

impl FieldDef {
    /// A field with the given name, type and role, no doc, and no rendering
    /// hints.
    pub fn new(name: &str, field_type: FieldType, role: FieldRole) -> (f: FieldDef)
        ensures
            f.name@ == name@,
            f.doc@.len() == 0,
            f.field_type == field_type,
            f.role == role,
            !f.serde_default,
            !f.multiline_list,
            f.default_value is None,
    {
        FieldDef {
            name: String::from_str(name),
            doc: String::new(),
            field_type,
            role,
            serde_default: false,
            multiline_list: false,
            default_value: None,
        }
    }
}

impl EntityDef {
    /// The primary-key field: the first field with role `Id`.
    pub fn id_field(&self) -> (r: Option<&FieldDef>)
        ensures
            match first_index(self.fields@, |f: FieldDef| is_id(f)) {
                Some(i) => r == Some(&self.fields@[i]),
                None => r is None,
            },
    {
        match find_role(&self.fields, false) {
            Some(i) => Some(&self.fields[i]),
            None => None,
        }
    }

    /// The body field: the first field with role `Body`.
    pub fn body_field(&self) -> (r: Option<&FieldDef>)
        ensures
            match first_index(self.fields@, |f: FieldDef| is_body(f)) {
                Some(i) => r == Some(&self.fields@[i]),
                None => r is None,
            },
    {
        match find_role(&self.fields, true) {
            Some(i) => Some(&self.fields[i]),
            None => None,
        }
    }

    /// Whether the entity has a `many_to_many` or `has_many` relation.
    pub fn has_relations(&self) -> (b: bool)
        ensures
            b == has_relations_spec(*self),
    {
        let mut i: usize = 0;
        while i < self.fields.len()
            invariant
                i <= self.fields.len(),
                forall|j: int| 0 <= j < i ==> !is_junction(#[trigger] self.fields@[j]) && !is_has_many(
                    self.fields@[j],
                ),
            decreases self.fields.len() - i,
        {
            match &self.fields[i].role {
                FieldRole::Relation(info) => {
                    if info.kind == RelationKind::ManyToMany || info.kind == RelationKind::HasMany {
                        proof {
                            let f = self.fields@[i as int];
                            if info.kind == RelationKind::ManyToMany {
                                assert((|f: FieldDef| is_junction(f))(f));
                            } else {
                                assert((|f: FieldDef| is_has_many(f))(f));
                            }
                        }
                        return true;
                    }
                },
                _ => {},
            }
            i = i + 1;
        }
        proof {
            assert forall|j: int| 0 <= j < self.fields@.len() implies !(|f: FieldDef| is_junction(f))(
                #[trigger] self.fields@[j],
            ) by {}
            assert forall|j: int| 0 <= j < self.fields@.len() implies !(|f: FieldDef| is_has_many(f))(
                #[trigger] self.fields@[j],
            ) by {}
        }
        false
    }
}

} // verus!
