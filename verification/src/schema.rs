//! The schema model: the fields of an entity, their attributes, and the
//! entity-level uniqueness groups.

use crate::seqs::{gather, lemma_gather_ends, lemma_gather_step, lemma_push_deep_view};
use crate::shape::{classify, shape_of, TypeShape};
use crate::text::{
    chars_of, skip_leading, skip_trailing, split, text_eq, trim, trim_bounds, trim_end, trim_start,
    CharClass,
};
use vstd::prelude::*;
use vstd::string::*;

verus! {

/// The kinds of declarative attribute that a field may carry.
#[derive(Clone, Copy, Debug, PartialEq, Eq, Structural, Hash)]
pub enum AttributeKind {
    PrimaryKey,
    AutoIncrement,
    Unique,
    NotNull,
    Nonempty,
    Reference,
    Snapshot,
    Length,
    MaxLength,
    MinLength,
    MaxItems,
    MinItems,
    UniqueItems,
    Format,
    Validator,
    WriteOnly,
}

/// The attribute kind that a key of the attribute source names, if any.
pub open spec fn kind_of_key(key: Seq<char>) -> Option<AttributeKind> {
    if key == "primary_key"@ {
        Some(AttributeKind::PrimaryKey)
    } else if key == "auto_increment"@ {
        Some(AttributeKind::AutoIncrement)
    } else if key == "unique"@ {
        Some(AttributeKind::Unique)
    } else if key == "not_null"@ {
        Some(AttributeKind::NotNull)
    } else if key == "nonempty"@ {
        Some(AttributeKind::Nonempty)
    } else if key == "reference"@ {
        Some(AttributeKind::Reference)
    } else if key == "snapshot"@ {
        Some(AttributeKind::Snapshot)
    } else if key == "length"@ {
        Some(AttributeKind::Length)
    } else if key == "max_length"@ {
        Some(AttributeKind::MaxLength)
    } else if key == "min_length"@ {
        Some(AttributeKind::MinLength)
    } else if key == "max_items"@ {
        Some(AttributeKind::MaxItems)
    } else if key == "min_items"@ {
        Some(AttributeKind::MinItems)
    } else if key == "unique_items"@ {
        Some(AttributeKind::UniqueItems)
    } else if key == "format"@ {
        Some(AttributeKind::Format)
    } else if key == "validator"@ {
        Some(AttributeKind::Validator)
    } else if key == "write_only"@ {
        Some(AttributeKind::WriteOnly)
    } else {
        None
    }
}

impl AttributeKind {
    /// Reads an attribute kind from its key. A key that names no kind gives
    /// `None`: such an attribute is not this crate's concern.
    pub fn from_key(key: &str) -> (kind: Option<AttributeKind>)
        ensures
            kind == kind_of_key(key@),
    {
        if text_eq(key, "primary_key") {
            Some(AttributeKind::PrimaryKey)
        } else if text_eq(key, "auto_increment") {
            Some(AttributeKind::AutoIncrement)
        } else if text_eq(key, "unique") {
            Some(AttributeKind::Unique)
        } else if text_eq(key, "not_null") {
            Some(AttributeKind::NotNull)
        } else if text_eq(key, "nonempty") {
            Some(AttributeKind::Nonempty)
        } else if text_eq(key, "reference") {
            Some(AttributeKind::Reference)
        } else if text_eq(key, "snapshot") {
            Some(AttributeKind::Snapshot)
        } else if text_eq(key, "length") {
            Some(AttributeKind::Length)
        } else if text_eq(key, "max_length") {
            Some(AttributeKind::MaxLength)
        } else if text_eq(key, "min_length") {
            Some(AttributeKind::MinLength)
        } else if text_eq(key, "max_items") {
            Some(AttributeKind::MaxItems)
        } else if text_eq(key, "min_items") {
            Some(AttributeKind::MinItems)
        } else if text_eq(key, "unique_items") {
            Some(AttributeKind::UniqueItems)
        } else if text_eq(key, "format") {
            Some(AttributeKind::Format)
        } else if text_eq(key, "validator") {
            Some(AttributeKind::Validator)
        } else if text_eq(key, "write_only") {
            Some(AttributeKind::WriteOnly)
        } else {
            None
        }
    }
}

/// One attribute of a field: its kind and its optional payload.
#[derive(Clone, Debug, PartialEq, Eq)]
pub struct Attribute {
    pub kind: AttributeKind,
    pub payload: Option<String>,
}

/// The mathematical value of an [`Attribute`].
pub struct AttributeModel {
    pub kind: AttributeKind,
    pub payload: Option<Seq<char>>,
}

impl DeepView for Attribute {
    type V = AttributeModel;

    open spec fn deep_view(&self) -> AttributeModel {
        AttributeModel { kind: self.kind, payload: self.payload.deep_view() }
    }
}

impl View for Attribute {
    type V = AttributeModel;

    open spec fn view(&self) -> AttributeModel {
        self.deep_view()
    }
}

impl Attribute {
    /// An attribute without payload.
    pub fn flag(kind: AttributeKind) -> (attribute: Attribute)
        ensures
            attribute@ == (AttributeModel { kind, payload: None }),
    {
        Attribute { kind, payload: None }
    }

    /// An attribute with a payload.
    pub fn with_payload(kind: AttributeKind, payload: &str) -> (attribute: Attribute)
        ensures
            attribute@ == (AttributeModel { kind, payload: Some(payload@) }),
    {
        Attribute { kind, payload: Some(String::from_str(payload)) }
    }
}

/// The mathematical value of a [`FieldSchema`].
pub struct FieldModel {
    pub name: Seq<char>,
    pub alias: Option<Seq<char>>,
    pub declared_type: Seq<char>,
    pub attributes: Seq<AttributeModel>,
}

impl FieldModel {
    /// The semantic shape of the field's type.
    pub open spec fn shape(self) -> TypeShape {
        shape_of(self.declared_type)
    }

    /// The field carries an attribute of the given kind.
    pub open spec fn has(self, kind: AttributeKind) -> bool {
        exists|i: int| 0 <= i < self.attributes.len() && (#[trigger] self.attributes[i]).kind == kind
    }

    /// The name by which the field is matched to a well-known role: its
    /// alias, or its name where it has none.
    pub open spec fn role_name(self) -> Seq<char> {
        match self.alias {
            Some(alias) => alias,
            None => self.name,
        }
    }
}

/// One declared field of an entity.
#[derive(Debug)]
pub struct FieldSchema {
    pub(crate) name: String,
    pub(crate) alias: Option<String>,
    pub(crate) declared_type: String,
    pub(crate) shape: TypeShape,
    pub(crate) attributes: Vec<Attribute>,
}

impl DeepView for FieldSchema {
    type V = FieldModel;

    open(crate) spec fn deep_view(&self) -> FieldModel {
        FieldModel {
            name: self.name@,
            alias: self.alias.deep_view(),
            declared_type: self.declared_type@,
            attributes: self.attributes.deep_view(),
        }
    }
}

impl View for FieldSchema {
    type V = FieldModel;

    open spec fn view(&self) -> FieldModel {
        self.deep_view()
    }
}

impl FieldSchema {
    #[verifier::type_invariant]
    spec fn classified(self) -> bool {
        self.shape == shape_of(self.declared_type@)
    }

    /// Declares a field. Its shape is classified from the type name.
    pub fn new(name: &str, alias: Option<&str>, declared_type: &str, attributes: Vec<Attribute>) -> (field:
        FieldSchema)
        ensures
            field@ == (FieldModel {
                name: name@,
                alias: match alias {
                    Some(a) => Some(a@),
                    None => None,
                },
                declared_type: declared_type@,
                attributes: attributes.deep_view(),
            }),
    {
        let alias = match alias {
            Some(a) => Some(String::from_str(a)),
            None => None,
        };
        FieldSchema {
            name: String::from_str(name),
            alias,
            declared_type: String::from_str(declared_type),
            shape: classify(declared_type),
            attributes,
        }
    }

    /// The field's name.
    pub fn name(&self) -> (name: &str)
        ensures
            name@ == self@.name,
    {
        self.name.as_str()
    }

    /// The field's alias, if it has one.
    pub fn alias(&self) -> (alias: Option<&str>)
        ensures
            alias.deep_view() == self@.alias,
    {
        match &self.alias {
            Some(a) => Some(a.as_str()),
            None => None,
        }
    }

    /// The name by which the field is matched to a well-known role.
    pub fn role_name(&self) -> (name: &str)
        ensures
            name@ == self@.role_name(),
    {
        match &self.alias {
            Some(a) => a.as_str(),
            None => self.name.as_str(),
        }
    }

    /// The declared name of the field's type.
    pub fn declared_type(&self) -> (name: &str)
        ensures
            name@ == self@.declared_type,
    {
        self.declared_type.as_str()
    }

    /// The semantic shape of the field's type.
    pub fn shape(&self) -> (shape: TypeShape)
        ensures
            shape == self@.shape(),
    {
        proof {
            use_type_invariant(self);
        }
        self.shape
    }

    /// The field's attributes, in declaration order.
    pub fn attributes(&self) -> (attributes: &Vec<Attribute>)
        ensures
            attributes.deep_view() == self@.attributes,
    {
        &self.attributes
    }

    /// Tells whether the field carries an attribute of the given kind.
    pub fn has(&self, kind: AttributeKind) -> (yes: bool)
        ensures
            yes == self@.has(kind),
    {
        let mut i: usize = 0;
        while i < self.attributes.len()
            invariant
                i <= self.attributes.len(),
                forall|k: int| 0 <= k < i ==> (#[trigger] self@.attributes[k]).kind != kind,
            decreases self.attributes.len() - i,
        {
            if self.attributes[i].kind == kind {
                assert(self@.attributes[i as int].kind == kind);
                return true;
            }
            i += 1;
        }
        false
    }
}

/// How many of the fields carry the primary-key attribute.
pub open spec fn primary_key_count(fields: Seq<FieldModel>) -> nat
    decreases fields.len(),
{
    if fields.len() == 0 {
        0
    } else {
        primary_key_count(fields.drop_last()) + if fields.last().has(AttributeKind::PrimaryKey) {
            1nat
        } else {
            0nat
        }
    }
}

/// The mathematical value of an [`EntitySchema`].
pub struct SchemaModel {
    pub fields: Seq<FieldModel>,
    pub unique_on: Seq<Seq<Seq<char>>>,
}

impl SchemaModel {
    /// The field at position `i` is a primary key.
    pub open spec fn is_primary_key(self, i: int) -> bool {
        0 <= i < self.fields.len() && self.fields[i].has(AttributeKind::PrimaryKey)
    }

    /// Exactly one field carries the primary-key attribute.
    pub open spec fn valid(self) -> bool {
        primary_key_count(self.fields) == 1
    }

    /// The position of the primary key.
    pub open spec fn primary_key(self) -> int {
        choose|i: int| self.is_primary_key(i)
    }
}

/// Two primary keys at different positions count for two at least; none at
/// all counts for zero; and a count above zero has a primary key.
pub proof fn lemma_primary_key_count(fields: Seq<FieldModel>)
    ensures
        primary_key_count(fields) <= fields.len(),
        primary_key_count(fields) == 0 <==> forall|i: int|
            0 <= i < fields.len() ==> !(#[trigger] fields[i]).has(AttributeKind::PrimaryKey),
        forall|i: int, j: int|
            0 <= i < j < fields.len() && (#[trigger] fields[i]).has(AttributeKind::PrimaryKey) && (
            #[trigger] fields[j]).has(AttributeKind::PrimaryKey) ==> primary_key_count(fields) >= 2,
    decreases fields.len(),
{
    if fields.len() > 0 {
        let head = fields.drop_last();
        lemma_primary_key_count(head);
        assert forall|i: int| 0 <= i < head.len() implies head[i] == fields[i] by {}
        if primary_key_count(fields) == 0 {
            assert forall|i: int| 0 <= i < fields.len() implies !(#[trigger] fields[i]).has(
                AttributeKind::PrimaryKey,
            ) by {
                if i < head.len() {
                    assert(!head[i].has(AttributeKind::PrimaryKey));
                }
            }
        }
        if forall|i: int|
            0 <= i < fields.len() ==> !(#[trigger] fields[i]).has(AttributeKind::PrimaryKey) {
            assert forall|i: int| 0 <= i < head.len() implies !(#[trigger] head[i]).has(
                AttributeKind::PrimaryKey,
            ) by {
                assert(!fields[i].has(AttributeKind::PrimaryKey));
            }
        }
        assert forall|i: int, j: int|
            0 <= i < j < fields.len() && (#[trigger] fields[i]).has(AttributeKind::PrimaryKey) && (
            #[trigger] fields[j]).has(AttributeKind::PrimaryKey) implies primary_key_count(fields)
            >= 2 by {
            if j < head.len() {
                assert(head[i].has(AttributeKind::PrimaryKey));
                assert(head[j].has(AttributeKind::PrimaryKey));
            } else {
                assert(head[i].has(AttributeKind::PrimaryKey));
                assert(primary_key_count(head) != 0);
            }
        }
    }
}

/// In a valid schema exactly one field is the primary key: the one at
/// `primary_key()`, and no other.
pub proof fn lemma_one_primary_key(schema: SchemaModel)
    requires
        schema.valid(),
    ensures
        schema.is_primary_key(schema.primary_key()),
        forall|i: int| schema.is_primary_key(i) ==> i == schema.primary_key(),
{
    lemma_primary_key_count(schema.fields);
    let k = choose|k: int|
        0 <= k < schema.fields.len() && (#[trigger] schema.fields[k]).has(AttributeKind::PrimaryKey);
    assert(schema.is_primary_key(k));
    let p = schema.primary_key();
    assert forall|i: int| schema.is_primary_key(i) implies i == p by {
        if i < p {
            assert(schema.fields[i].has(AttributeKind::PrimaryKey));
            assert(schema.fields[p].has(AttributeKind::PrimaryKey));
        } else if p < i {
            assert(schema.fields[i].has(AttributeKind::PrimaryKey));
            assert(schema.fields[p].has(AttributeKind::PrimaryKey));
        }
    }
}

/// Why a schema was refused.
#[derive(Clone, Copy, Debug, PartialEq, Eq, Structural, Hash)]
pub enum SchemaError {
    /// No field carries the primary-key attribute.
    MissingPrimaryKey,
    /// More than one field carries the primary-key attribute.
    DuplicatePrimaryKey,
}

impl SchemaError {
    /// The error written as a message.
    pub open spec fn message_text(self) -> Seq<char> {
        match self {
            SchemaError::MissingPrimaryKey => "the entity has no primary key"@,
            SchemaError::DuplicatePrimaryKey => "the entity has more than one primary key"@,
        }
    }

    /// Writes the error as a message.
    pub fn message(&self) -> (text: String)
        ensures
            text@ == self.message_text(),
    {
        match self {
            SchemaError::MissingPrimaryKey => String::from_str("the entity has no primary key"),
            SchemaError::DuplicatePrimaryKey => String::from_str(
                "the entity has more than one primary key",
            ),
        }
    }
}

/// The schema of an entity: its fields in declaration order, and the groups
/// of field names whose combined values must be unique.
#[derive(Debug)]
pub struct EntitySchema {
    pub(crate) fields: Vec<FieldSchema>,
    pub(crate) unique_on: Vec<Vec<String>>,
    pub(crate) primary_key: usize,
}

impl DeepView for EntitySchema {
    type V = SchemaModel;

    open(crate) spec fn deep_view(&self) -> SchemaModel {
        SchemaModel { fields: self.fields.deep_view(), unique_on: self.unique_on.deep_view() }
    }
}

impl View for EntitySchema {
    type V = SchemaModel;

    open spec fn view(&self) -> SchemaModel {
        self.deep_view()
    }
}

impl EntitySchema {
    #[verifier::type_invariant]
    pub open(crate) spec fn keyed(self) -> bool {
        &&& self@.valid()
        &&& self@.is_primary_key(self.primary_key as int)
    }

    /// Builds the schema of an entity. A schema is accepted if and only if
    /// exactly one of its fields carries the primary-key attribute.
    pub fn new(fields: Vec<FieldSchema>, unique_on: Vec<Vec<String>>) -> (schema: Result<
        EntitySchema,
        SchemaError,
    >)
        ensures
            match schema {
                Ok(s) => s@ == (SchemaModel {
                    fields: fields.deep_view(),
                    unique_on: unique_on.deep_view(),
                }) && s@.valid(),
                Err(SchemaError::MissingPrimaryKey) => primary_key_count(fields.deep_view()) == 0,
                Err(SchemaError::DuplicatePrimaryKey) => primary_key_count(fields.deep_view()) >= 2,
            },
    {
        let ghost model = fields.deep_view();
        let mut count: usize = 0;
        let mut found: usize = 0;
        let mut i: usize = 0;
        while i < fields.len()
            invariant
                i <= fields.len(),
                model == fields.deep_view(),
                count as nat == primary_key_count(model.take(i as int)),
                count <= i,
                count > 0 ==> found < i && model[found as int].has(AttributeKind::PrimaryKey),
            decreases fields.len() - i,
        {
            proof {
                assert(model.take(i + 1).drop_last() =~= model.take(i as int));
            }
            if fields[i].has(AttributeKind::PrimaryKey) {
                count += 1;
                found = i;
            }
            i += 1;
        }
        assert(model.take(i as int) =~= model);
        if count == 0 {
            Err(SchemaError::MissingPrimaryKey)
        } else if count > 1 {
            Err(SchemaError::DuplicatePrimaryKey)
        } else {
            Ok(EntitySchema { fields, unique_on, primary_key: found })
        }
    }

    /// The fields, in declaration order.
    pub fn fields(&self) -> (fields: &Vec<FieldSchema>)
        ensures
            fields.deep_view() == self@.fields,
    {
        &self.fields
    }

    /// The composite uniqueness groups.
    pub fn unique_on(&self) -> (groups: &Vec<Vec<String>>)
        ensures
            groups.deep_view() == self@.unique_on,
    {
        &self.unique_on
    }

    /// The position of the primary key among the fields.
    pub fn primary_key(&self) -> (index: usize)
        ensures
            self@.valid(),
            index == self@.primary_key(),
            self@.is_primary_key(index as int),
    {
        proof {
            use_type_invariant(self);
            lemma_one_primary_key(self@);
        }
        self.primary_key
    }

    /// The field that is the primary key.
    pub fn primary_key_field(&self) -> (field: &FieldSchema)
        ensures
            self@.valid(),
            self@.is_primary_key(self@.primary_key()),
            field@ == self@.fields[self@.primary_key()],
    {
        let index = self.primary_key();
        &self.fields[index]
    }
}

/// One argument of the attribute source: a key and its optional value.
#[derive(Clone, Debug, PartialEq, Eq)]
pub struct Argument {
    pub key: String,
    pub value: Option<String>,
}

/// The mathematical value of an [`Argument`].
pub struct ArgumentModel {
    pub key: Seq<char>,
    pub value: Option<Seq<char>>,
}

impl DeepView for Argument {
    type V = ArgumentModel;

    open spec fn deep_view(&self) -> ArgumentModel {
        ArgumentModel { key: self.key@, value: self.value.deep_view() }
    }
}

impl View for Argument {
    type V = ArgumentModel;

    open spec fn view(&self) -> ArgumentModel {
        self.deep_view()
    }
}

impl Argument {
    /// An argument without value.
    pub fn flag(key: &str) -> (argument: Argument)
        ensures
            argument@ == (ArgumentModel { key: key@, value: None }),
    {
        Argument { key: String::from_str(key), value: None }
    }

    /// An argument with a value.
    pub fn with_value(key: &str, value: &str) -> (argument: Argument)
        ensures
            argument@ == (ArgumentModel { key: key@, value: Some(value@) }),
    {
        Argument { key: String::from_str(key), value: Some(String::from_str(value)) }
    }
}

/// What one argument contributes to the attributes of a field: an
/// attribute, if its key names a kind.
pub open spec fn each_attribute() -> spec_fn(int, ArgumentModel) -> Seq<AttributeModel> {
    |k: int, argument: ArgumentModel|
        match kind_of_key(argument.key) {
            Some(kind) => seq![AttributeModel { kind, payload: argument.value }],
            None => Seq::empty(),
        }
}

/// The attributes that a list of arguments declares, in order.
pub open spec fn attributes_of(arguments: Seq<ArgumentModel>) -> Seq<AttributeModel> {
    gather(arguments, each_attribute())
}

/// The alias that a list of arguments declares: the value of its last
/// `alias` argument.
pub open spec fn alias_of(arguments: Seq<ArgumentModel>) -> Option<Seq<char>>
    decreases arguments.len(),
{
    if arguments.len() == 0 {
        None
    } else if arguments.last().key == "alias"@ {
        arguments.last().value
    } else {
        alias_of(arguments.drop_last())
    }
}

/// The pieces, each trimmed of white space at both ends.
pub open spec fn trimmed_pieces(pieces: Seq<Seq<char>>) -> Seq<Seq<char>> {
    Seq::new(pieces.len(), |i: int| trim(pieces[i], CharClass::Whitespace))
}

/// What stands between the parentheses of a group.
pub open spec fn group_body(payload: Seq<char>) -> Seq<char> {
    trim_end(trim_start(payload, CharClass::OpenParenthesis), CharClass::CloseParenthesis)
}

/// The field names that the payload of a uniqueness group lists: the
/// payload less its parentheses, split at commas, each piece trimmed.
pub open spec fn group_names(payload: Seq<char>) -> Seq<Seq<char>> {
    trimmed_pieces(split(group_body(payload), ','))
}

/// What one argument contributes to the uniqueness groups of an entity: a
/// group, if it is a `unique_on` argument with a value.
pub open spec fn each_group() -> spec_fn(int, ArgumentModel) -> Seq<Seq<Seq<char>>> {
    |k: int, argument: ArgumentModel|
        match argument.value {
            Some(payload) if argument.key == "unique_on"@ => seq![group_names(payload)],
            _ => Seq::empty(),
        }
}

/// The uniqueness groups that a list of arguments declares, in order.
pub open spec fn groups_of(arguments: Seq<ArgumentModel>) -> Seq<Seq<Seq<char>>> {
    gather(arguments, each_group())
}

/// Reads the field names of a uniqueness group from its payload.
pub fn parse_group(payload: &str) -> (names: Vec<String>)
    ensures
        names.deep_view() == group_names(payload@),
{
    let chars = chars_of(payload);
    let n = chars.len();
    let a = skip_leading(&chars, 0, n, CharClass::OpenParenthesis);
    let b = skip_trailing(&chars, a, n, CharClass::CloseParenthesis);
    let ghost inner = chars@.subrange(a as int, b as int);
    proof {
        assert(chars@.subrange(0, n as int) =~= payload@);
        assert(trim_start(payload@, CharClass::OpenParenthesis) =~= chars@.subrange(
            a as int,
            n as int,
        ));
        assert(inner =~= group_body(payload@));
    }
    let mut names: Vec<String> = Vec::new();
    let ghost mut done: Seq<Seq<char>> = Seq::empty();
    let mut start: usize = a;
    let mut i: usize = a;
    proof {
        assert(inner.take(0) =~= Seq::<char>::empty());
        assert(split(inner.take(0), ',') =~= done.push(inner.subrange(0, 0)));
        assert(names.deep_view() =~= trimmed_pieces(done));
    }
    while i < b
        invariant
            a <= start <= i <= b <= n,
            n == chars.len(),
            chars@ == payload@,
            inner == chars@.subrange(a as int, b as int),
            split(inner.take(i - a), ',') == done.push(inner.subrange(start - a, i - a)),
            names.deep_view() == trimmed_pieces(done),
        decreases b - i,
    {
        proof {
            assert(inner.take(i - a + 1).drop_last() =~= inner.take(i - a));
            assert(inner.take(i - a + 1).last() == chars@[i as int]);
        }
        if chars[i] == ',' {
            let (from, to) = trim_bounds(&chars, start, i, CharClass::Whitespace);
            let piece = String::from_str(payload.substring_char(from, to));
            let ghost raw = inner.subrange(start - a, i - a);
            proof {
                assert(raw =~= chars@.subrange(start as int, i as int));
                assert(piece@ == trim(raw, CharClass::Whitespace));
            }
            let ghost before = names;
            let ghost pushed = piece;
            names.push(piece);
            proof {
                lemma_push_deep_view(before, names, pushed);
                assert(names.deep_view() =~= trimmed_pieces(done.push(raw)));
                done = done.push(raw);
                assert(inner.subrange(i + 1 - a, i + 1 - a) =~= Seq::<char>::empty());
            }
            start = i + 1;
        } else {
            proof {
                let piece = inner.subrange(start - a, i - a);
                assert(done.push(piece).drop_last() =~= done);
                assert(piece.push(chars@[i as int]) =~= inner.subrange(start - a, i + 1 - a));
            }
        }
        i += 1;
    }
    let (from, to) = trim_bounds(&chars, start, b, CharClass::Whitespace);
    let piece = String::from_str(payload.substring_char(from, to));
    let ghost raw = inner.subrange(start - a, b - a);
    proof {
        assert(raw =~= chars@.subrange(start as int, b as int));
        assert(inner.take(b - a) =~= inner);
    }
    let ghost before = names;
    let ghost pushed = piece;
    names.push(piece);
    proof {
        lemma_push_deep_view(before, names, pushed);
        assert(names.deep_view() =~= trimmed_pieces(done.push(raw)));
    }
    names
}

fn alias_from(arguments: &Vec<Argument>) -> (alias: Option<String>)
    ensures
        alias.deep_view() == alias_of(arguments.deep_view()),
{
    let ghost model = arguments.deep_view();
    let mut alias: Option<String> = None;
    let mut i: usize = 0;
    assert(model.take(0) =~= Seq::<ArgumentModel>::empty());
    while i < arguments.len()
        invariant
            i <= arguments.len(),
            model == arguments.deep_view(),
            alias.deep_view() == alias_of(model.take(i as int)),
        decreases arguments.len() - i,
    {
        proof {
            assert(model.take(i + 1).drop_last() =~= model.take(i as int));
        }
        if text_eq(arguments[i].key.as_str(), "alias") {
            alias = arguments[i].value.clone();
        }
        i += 1;
    }
    assert(model.take(i as int) =~= model);
    alias
}

fn attributes_from(arguments: &Vec<Argument>) -> (attributes: Vec<Attribute>)
    ensures
        attributes.deep_view() == attributes_of(arguments.deep_view()),
{
    let ghost model = arguments.deep_view();
    let ghost each = each_attribute();
    let mut attributes: Vec<Attribute> = Vec::new();
    let mut i: usize = 0;
    proof {
        lemma_gather_ends(model, each);
        assert(attributes.deep_view() =~= Seq::<AttributeModel>::empty());
    }
    while i < arguments.len()
        invariant
            i <= arguments.len(),
            model == arguments.deep_view(),
            each == each_attribute(),
            attributes.deep_view() == gather(model.take(i as int), each),
        decreases arguments.len() - i,
    {
        proof {
            lemma_gather_step(model, each, i as int);
        }
        match AttributeKind::from_key(arguments[i].key.as_str()) {
            Some(kind) => {
                let attribute = Attribute { kind, payload: arguments[i].value.clone() };
                let ghost before = attributes;
                let ghost pushed = attribute;
                attributes.push(attribute);
                proof {
                    lemma_push_deep_view(before, attributes, pushed);
                    assert(attributes.deep_view() =~= gather(model.take(i as int), each) + each(
                        i as int,
                        model[i as int],
                    ));
                }
            },
            None => {
                assert(gather(model.take(i as int), each) + each(i as int, model[i as int])
                    =~= gather(model.take(i as int), each));
            },
        }
        i += 1;
    }
    proof {
        lemma_gather_ends(model, each);
    }
    attributes
}

fn groups_from(arguments: &Vec<Argument>) -> (groups: Vec<Vec<String>>)
    ensures
        groups.deep_view() == groups_of(arguments.deep_view()),
{
    let ghost model = arguments.deep_view();
    let ghost each = each_group();
    let mut groups: Vec<Vec<String>> = Vec::new();
    let mut i: usize = 0;
    proof {
        lemma_gather_ends(model, each);
        assert(groups.deep_view() =~= Seq::<Seq<Seq<char>>>::empty());
    }
    while i < arguments.len()
        invariant
            i <= arguments.len(),
            model == arguments.deep_view(),
            each == each_group(),
            groups.deep_view() == gather(model.take(i as int), each),
        decreases arguments.len() - i,
    {
        proof {
            lemma_gather_step(model, each, i as int);
        }
        let ghost before_view = groups.deep_view();
        let mut added = false;
        if text_eq(arguments[i].key.as_str(), "unique_on") {
            match &arguments[i].value {
                Some(payload) => {
                    let names = parse_group(payload.as_str());
                    let ghost before = groups;
                    let ghost pushed = names;
                    groups.push(names);
                    proof {
                        lemma_push_deep_view(before, groups, pushed);
                    }
                    added = true;
                },
                None => {},
            }
        }
        proof {
            if added {
                assert(groups.deep_view() =~= before_view + each(i as int, model[i as int]));
            } else {
                assert(before_view + each(i as int, model[i as int]) =~= before_view);
            }
        }
        i += 1;
    }
    proof {
        lemma_gather_ends(model, each);
    }
    groups
}

impl FieldSchema {
    /// Declares a field from the arguments of the attribute source. An
    /// `alias` argument gives the field its alias; an argument whose key
    /// names an attribute kind gives it that attribute; any other is
    /// ignored.
    pub fn declare(name: &str, declared_type: &str, arguments: &Vec<Argument>) -> (field:
        FieldSchema)
        ensures
            field@ == (FieldModel {
                name: name@,
                alias: alias_of(arguments.deep_view()),
                declared_type: declared_type@,
                attributes: attributes_of(arguments.deep_view()),
            }),
    {
        FieldSchema {
            name: String::from_str(name),
            alias: alias_from(arguments),
            declared_type: String::from_str(declared_type),
            shape: classify(declared_type),
            attributes: attributes_from(arguments),
        }
    }
}

impl EntitySchema {
    /// Builds the schema of an entity from its fields and the entity's own
    /// arguments of the attribute source: each `unique_on` argument with a
    /// value declares a uniqueness group. A schema is accepted if and only
    /// if exactly one of its fields carries the primary-key attribute.
    pub fn declare(fields: Vec<FieldSchema>, arguments: &Vec<Argument>) -> (schema: Result<
        EntitySchema,
        SchemaError,
    >)
        ensures
            match schema {
                Ok(s) => s@ == (SchemaModel {
                    fields: fields.deep_view(),
                    unique_on: groups_of(arguments.deep_view()),
                }) && s@.valid(),
                Err(SchemaError::MissingPrimaryKey) => primary_key_count(fields.deep_view()) == 0,
                Err(SchemaError::DuplicatePrimaryKey) => primary_key_count(fields.deep_view()) >= 2,
            },
    {
        EntitySchema::new(fields, groups_from(arguments))
    }
}

} // verus!
