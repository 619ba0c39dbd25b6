//! The accessor synthesizer: from the well-known roles of fields to typed
//! accessor bindings.

use crate::schema::{EntitySchema, FieldModel, FieldSchema, SchemaModel};
use crate::seqs::{gather, lemma_gather_ends, lemma_gather_step};
use crate::text::{chars_of, text_eq, trim, trim_bounds, CharClass};
use crate::value::{value_at, FieldValue, Instance, ValueModel};
use vstd::prelude::*;
use vstd::string::*;

verus! {

/// The well-known roles that a field may play.
#[derive(Clone, Copy, Debug, PartialEq, Eq, Structural, Hash)]
pub enum Role {
    Name,
    Status,
    Namespace,
    Visibility,
    Description,
    Content,
    Extra,
    OwnerId,
    MaintainerId,
    CreatedAt,
    UpdatedAt,
    Version,
    Edition,
}

/// The role that a role name stands for, if any.
pub open spec fn role_of(name: Seq<char>) -> Option<Role> {
    if name == "name"@ {
        Some(Role::Name)
    } else if name == "status"@ {
        Some(Role::Status)
    } else if name == "namespace"@ {
        Some(Role::Namespace)
    } else if name == "visibility"@ {
        Some(Role::Visibility)
    } else if name == "description"@ {
        Some(Role::Description)
    } else if name == "content"@ {
        Some(Role::Content)
    } else if name == "extra"@ {
        Some(Role::Extra)
    } else if name == "owner_id"@ {
        Some(Role::OwnerId)
    } else if name == "maintainer_id"@ {
        Some(Role::MaintainerId)
    } else if name == "created_at"@ {
        Some(Role::CreatedAt)
    } else if name == "updated_at"@ {
        Some(Role::UpdatedAt)
    } else if name == "version"@ {
        Some(Role::Version)
    } else if name == "edition"@ {
        Some(Role::Edition)
    } else {
        None
    }
}

impl Role {
    /// Reads a role from a role name.
    pub fn from_name(name: &str) -> (role: Option<Role>)
        ensures
            role == role_of(name@),
    {
        if text_eq(name, "name") {
            Some(Role::Name)
        } else if text_eq(name, "status") {
            Some(Role::Status)
        } else if text_eq(name, "namespace") {
            Some(Role::Namespace)
        } else if text_eq(name, "visibility") {
            Some(Role::Visibility)
        } else if text_eq(name, "description") {
            Some(Role::Description)
        } else if text_eq(name, "content") {
            Some(Role::Content)
        } else if text_eq(name, "extra") {
            Some(Role::Extra)
        } else if text_eq(name, "owner_id") {
            Some(Role::OwnerId)
        } else if text_eq(name, "maintainer_id") {
            Some(Role::MaintainerId)
        } else if text_eq(name, "created_at") {
            Some(Role::CreatedAt)
        } else if text_eq(name, "updated_at") {
            Some(Role::UpdatedAt)
        } else if text_eq(name, "version") {
            Some(Role::Version)
        } else if text_eq(name, "edition") {
            Some(Role::Edition)
        } else {
            None
        }
    }
}

/// The contract of an accessor: what it hands out, and when it hands out
/// nothing.
#[derive(Clone, Copy, Debug, PartialEq, Eq, Structural, Hash)]
pub enum AccessorKind {
    /// A text.
    Text,
    /// A map; absent when the map is empty.
    OptionalMap,
    /// An identifier; absent when it is the default of its type.
    OptionalIdentifier,
    /// A timestamp.
    Timestamp,
    /// An unsigned counter.
    Counter,
}

/// The accessor that a field gets by its role, if any. The roles of the
/// free-form maps bind a field of the map type only. A field without a type
/// name gets none.
pub open spec fn accessor_for(field: FieldModel) -> Option<(Role, AccessorKind)> {
    if field.declared_type.len() == 0 {
        None
    } else {
        match role_of(field.role_name()) {
            Some(Role::Name) => Some((Role::Name, AccessorKind::Text)),
            Some(Role::Status) => Some((Role::Status, AccessorKind::Text)),
            Some(Role::Namespace) => Some((Role::Namespace, AccessorKind::Text)),
            Some(Role::Visibility) => Some((Role::Visibility, AccessorKind::Text)),
            Some(Role::Description) => Some((Role::Description, AccessorKind::Text)),
            Some(Role::Content) => if field.declared_type == "Map"@ {
                Some((Role::Content, AccessorKind::OptionalMap))
            } else {
                None
            },
            Some(Role::Extra) => if field.declared_type == "Map"@ {
                Some((Role::Extra, AccessorKind::OptionalMap))
            } else {
                None
            },
            Some(Role::OwnerId) => Some((Role::OwnerId, AccessorKind::OptionalIdentifier)),
            Some(Role::MaintainerId) => Some(
                (Role::MaintainerId, AccessorKind::OptionalIdentifier),
            ),
            Some(Role::CreatedAt) => Some((Role::CreatedAt, AccessorKind::Timestamp)),
            Some(Role::UpdatedAt) => Some((Role::UpdatedAt, AccessorKind::Timestamp)),
            Some(Role::Version) => Some((Role::Version, AccessorKind::Counter)),
            Some(Role::Edition) => Some((Role::Edition, AccessorKind::Counter)),
            None => None,
        }
    }
}

/// The binding of a role to a field: the accessor of that role reads the
/// field at position `field`.
#[derive(Clone, Copy, Debug, PartialEq, Eq, Structural, Hash)]
pub struct AccessorBinding {
    pub role: Role,
    pub field: usize,
    pub kind: AccessorKind,
}

/// The mathematical value of an [`AccessorBinding`].
pub struct BindingModel {
    pub role: Role,
    pub field: int,
    pub kind: AccessorKind,
}

impl DeepView for AccessorBinding {
    type V = BindingModel;

    open spec fn deep_view(&self) -> BindingModel {
        BindingModel { role: self.role, field: self.field as int, kind: self.kind }
    }
}

impl View for AccessorBinding {
    type V = BindingModel;

    open spec fn view(&self) -> BindingModel {
        self.deep_view()
    }
}

/// What one field contributes to the accessor bindings of an entity whose
/// primary key stands at `key`: the primary key gets no role accessor.
pub open spec fn each_binding(key: int) -> spec_fn(int, FieldModel) -> Seq<BindingModel> {
    |i: int, field: FieldModel|
        if i == key {
            Seq::empty()
        } else {
            match accessor_for(field) {
                Some((role, kind)) => seq![BindingModel { role, field: i, kind }],
                None => Seq::empty(),
            }
        }
}

/// The accessor bindings of an entity, in declaration order.
pub open spec fn bindings_of(schema: SchemaModel) -> Seq<BindingModel> {
    gather(schema.fields, each_binding(schema.primary_key()))
}

/// The first binding of a role, if the role is bound.
pub open spec fn binding_of(bindings: Seq<BindingModel>, role: Role) -> Option<BindingModel>
    decreases bindings.len(),
{
    if bindings.len() == 0 {
        None
    } else {
        match binding_of(bindings.drop_last(), role) {
            Some(binding) => Some(binding),
            None => if bindings.last().role == role {
                Some(bindings.last())
            } else {
                None
            },
        }
    }
}

/// What an accessor hands out for an instance: the value of its field,
/// unless its contract makes the value absent.
pub open spec fn accessed(binding: BindingModel, values: Seq<ValueModel>) -> Option<ValueModel> {
    match value_at(values, binding.field) {
        None => None,
        Some(value) => match binding.kind {
            AccessorKind::OptionalMap => if value.is_empty() {
                None
            } else {
                Some(value)
            },
            AccessorKind::OptionalIdentifier => if value.is_default() {
                None
            } else {
                Some(value)
            },
            _ => Some(value),
        },
    }
}

/// What the accessor of a role hands out for an instance; nothing where
/// the role is not bound.
pub open spec fn read_of(bindings: Seq<BindingModel>, role: Role, values: Seq<ValueModel>) -> Option<
    ValueModel,
> {
    match binding_of(bindings, role) {
        Some(binding) => accessed(binding, values),
        None => None,
    }
}

/// Synthesizes the accessor that a field gets, if any.
pub fn synthesize_accessor(field: &FieldSchema) -> (accessor: Option<(Role, AccessorKind)>)
    ensures
        accessor == accessor_for(field@),
{
    if field.declared_type().is_empty() {
        return None;
    }
    match Role::from_name(field.role_name()) {
        Some(Role::Name) => Some((Role::Name, AccessorKind::Text)),
        Some(Role::Status) => Some((Role::Status, AccessorKind::Text)),
        Some(Role::Namespace) => Some((Role::Namespace, AccessorKind::Text)),
        Some(Role::Visibility) => Some((Role::Visibility, AccessorKind::Text)),
        Some(Role::Description) => Some((Role::Description, AccessorKind::Text)),
        Some(Role::Content) => {
            if text_eq(field.declared_type(), "Map") {
                Some((Role::Content, AccessorKind::OptionalMap))
            } else {
                None
            }
        },
        Some(Role::Extra) => {
            if text_eq(field.declared_type(), "Map") {
                Some((Role::Extra, AccessorKind::OptionalMap))
            } else {
                None
            }
        },
        Some(Role::OwnerId) => Some((Role::OwnerId, AccessorKind::OptionalIdentifier)),
        Some(Role::MaintainerId) => Some((Role::MaintainerId, AccessorKind::OptionalIdentifier)),
        Some(Role::CreatedAt) => Some((Role::CreatedAt, AccessorKind::Timestamp)),
        Some(Role::UpdatedAt) => Some((Role::UpdatedAt, AccessorKind::Timestamp)),
        Some(Role::Version) => Some((Role::Version, AccessorKind::Counter)),
        Some(Role::Edition) => Some((Role::Edition, AccessorKind::Counter)),
        None => None,
    }
}

/// Synthesizes the accessor bindings of an entity.
pub fn synthesize_bindings(schema: &EntitySchema) -> (bindings: Vec<AccessorBinding>)
    ensures
        bindings.deep_view() == bindings_of(schema@),
{
    let fields = schema.fields();
    let key = schema.primary_key();
    let ghost model = schema@.fields;
    let ghost each = each_binding(key as int);
    let mut bindings: Vec<AccessorBinding> = Vec::new();
    let mut i: usize = 0;
    proof {
        lemma_gather_ends(model, each);
        assert(bindings.deep_view() =~= Seq::<BindingModel>::empty());
    }
    while i < fields.len()
        invariant
            i <= fields.len(),
            model == fields.deep_view(),
            each == each_binding(key as int),
            bindings.deep_view() == gather(model.take(i as int), each),
        decreases fields.len() - i,
    {
        proof {
            lemma_gather_step(model, each, i as int);
        }
        let ghost before = bindings.deep_view();
        let accessor = synthesize_accessor(&fields[i]);
        if i != key && accessor.is_some() {
            let (role, kind) = accessor.unwrap();
            bindings.push(AccessorBinding { role, field: i, kind });
            assert(bindings.deep_view() =~= before + each(i as int, model[i as int]));
        } else {
            assert(before + each(i as int, model[i as int]) =~= before);
        }
        i += 1;
    }
    proof {
        lemma_gather_ends(model, each);
    }
    bindings
}

/// Finds the first binding of a role.
pub fn find_binding(bindings: &Vec<AccessorBinding>, role: Role) -> (binding: Option<
    AccessorBinding,
>)
    ensures
        binding.deep_view() == binding_of(bindings.deep_view(), role),
{
    let ghost model = bindings.deep_view();
    let mut found: Option<AccessorBinding> = None;
    let mut i: usize = 0;
    while i < bindings.len()
        invariant
            i <= bindings.len(),
            model == bindings.deep_view(),
            found.deep_view() == binding_of(model.take(i as int), role),
        decreases bindings.len() - i,
    {
        proof {
            assert(model.take(i + 1).drop_last() =~= model.take(i as int));
        }
        if found.is_none() && bindings[i].role == role {
            found = Some(bindings[i]);
        }
        i += 1;
    }
    assert(model.take(i as int) =~= model);
    found
}

impl AccessorBinding {
    /// What the accessor hands out for an instance.
    pub fn read<'a>(&self, instance: &'a Instance) -> (value: Option<&'a FieldValue>)
        ensures
            value.deep_view() == accessed(self@, instance@),
    {
        match instance.get(self.field) {
            None => None,
            Some(value) => match self.kind {
                AccessorKind::OptionalMap => if value.is_empty() {
                    None
                } else {
                    Some(value)
                },
                AccessorKind::OptionalIdentifier => if value.is_default() {
                    None
                } else {
                    Some(value)
                },
                _ => Some(value),
            },
        }
    }
}

/// The type name begins with `Option`.
pub open spec fn is_optional_name(name: Seq<char>) -> bool {
    name.len() >= 6 && name.take(6) == "Option"@
}

/// The type that a declared type holds: of an optional type, what stands
/// after `Option`, less the angle brackets at both ends; of any other, the
/// type itself.
pub open spec fn base_type(name: Seq<char>) -> Seq<char> {
    if is_optional_name(name) {
        trim(name.skip(6), CharClass::AngleBracket)
    } else {
        name
    }
}

/// The field names a user: it is bound to the role of the owner or of the
/// maintainer.
pub open spec fn names_user(key: int, index: int, field: FieldModel) -> bool {
    index != key && match accessor_for(field) {
        Some((_, kind)) => kind == AccessorKind::OptionalIdentifier,
        None => false,
    }
}

/// The type of the identifiers that name users, as the last field that
/// names a user declares it; empty where no field names a user.
pub open spec fn owner_type(fields: Seq<FieldModel>, key: int) -> Seq<char>
    decreases fields.len(),
{
    if fields.len() == 0 {
        Seq::empty()
    } else if names_user(key, fields.len() - 1, fields.last()) {
        base_type(fields.last().declared_type)
    } else {
        owner_type(fields.drop_last(), key)
    }
}

/// The type of the identifiers that name users: the type that the fields
/// declare, or the type of the primary key where they declare none.
pub open spec fn user_type_of(schema: SchemaModel) -> Seq<char> {
    let declared = owner_type(schema.fields, schema.primary_key());
    if declared.len() == 0 {
        schema.fields[schema.primary_key()].declared_type
    } else {
        declared
    }
}

/// The type that a declared type holds.
pub fn base_type_of(name: &str) -> (base: String)
    ensures
        base@ == base_type(name@),
{
    let chars = chars_of(name);
    let n = chars.len();
    proof {
        reveal_strlit("Option");
    }
    if n >= 6 && chars[0] == 'O' && chars[1] == 'p' && chars[2] == 't' && chars[3] == 'i'
        && chars[4] == 'o' && chars[5] == 'n' {
        assert(name@.take(6) =~= "Option"@);
        let (from, to) = trim_bounds(&chars, 6, n, CharClass::AngleBracket);
        assert(chars@.subrange(6, n as int) =~= name@.skip(6));
        String::from_str(name.substring_char(from, to))
    } else {
        proof {
            if n >= 6 {
                assert(name@.take(6)[0] == name@[0]);
                assert(name@.take(6)[1] == name@[1]);
                assert(name@.take(6)[2] == name@[2]);
                assert(name@.take(6)[3] == name@[3]);
                assert(name@.take(6)[4] == name@[4]);
                assert(name@.take(6)[5] == name@[5]);
            }
        }
        String::from_str(name)
    }
}

/// The type of the identifiers that name the users of an entity.
pub fn user_type(schema: &EntitySchema) -> (name: String)
    ensures
        name@ == user_type_of(schema@),
{
    let fields = schema.fields();
    let key = schema.primary_key();
    let ghost model = schema@.fields;
    let mut declared = String::new();
    let mut i: usize = 0;
    assert(model.take(0) =~= Seq::<FieldModel>::empty());
    while i < fields.len()
        invariant
            i <= fields.len(),
            model == fields.deep_view(),
            declared@ == owner_type(model.take(i as int), key as int),
        decreases fields.len() - i,
    {
        proof {
            assert(model.take(i + 1).drop_last() =~= model.take(i as int));
        }
        if i != key {
            match synthesize_accessor(&fields[i]) {
                Some((_, AccessorKind::OptionalIdentifier)) => {
                    declared = base_type_of(fields[i].declared_type());
                },
                _ => {},
            }
        }
        i += 1;
    }
    assert(model.take(i as int) =~= model);
    if declared.as_str().is_empty() {
        String::from_str(fields[key].declared_type())
    } else {
        declared
    }
}

} // verus!
