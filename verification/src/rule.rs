//! The constraint rule synthesizer: from the attributes of each field, and
//! from the entity's uniqueness groups, to the ordered list of rules that
//! validate an instance.

use crate::schema::{Attribute, AttributeKind, AttributeModel, EntitySchema, FieldModel, FieldSchema, SchemaModel};
use crate::seqs::{gather, join, joined, lemma_gather_ends, lemma_gather_step, lemma_push_deep_view};
use crate::shape::TypeShape;
use crate::text::{parse_count, parsed_count, resolve_path, split_path, text_eq};
use vstd::prelude::*;
use vstd::string::*;

verus! {

/// The validator that a rule delegates to, as its path resolves: a path
/// `module::function` names a function of a module, whose result
/// validates; a bare name names a value that validates.
#[derive(Clone, Debug, PartialEq, Eq)]
pub struct ValidatorPath {
    /// What stands before the first `::` of the path, if it has one.
    pub module: Option<String>,
    /// What stands after the first `::`; of a bare name, the name.
    pub name: String,
}

/// The mathematical value of a [`ValidatorPath`].
pub struct PathModel {
    pub module: Option<Seq<char>>,
    pub name: Seq<char>,
}

impl DeepView for ValidatorPath {
    type V = PathModel;

    open spec fn deep_view(&self) -> PathModel {
        PathModel { module: self.module.deep_view(), name: self.name@ }
    }
}

impl View for ValidatorPath {
    type V = PathModel;

    open spec fn view(&self) -> PathModel {
        self.deep_view()
    }
}

/// The validator that the payload of a validator attribute resolves to.
pub open spec fn resolved(payload: Seq<char>) -> PathModel {
    PathModel { module: split_path(payload).0, name: split_path(payload).1 }
}

impl ValidatorPath {
    /// Resolves the payload of a validator attribute.
    pub fn resolve(payload: &str) -> (path: ValidatorPath)
        ensures
            path@ == resolved(payload@),
    {
        let (module, name) = resolve_path(payload);
        ValidatorPath { module, name }
    }

    /// A copy of the path.
    pub fn duplicate(&self) -> (copy: ValidatorPath)
        ensures
            copy@ == self@,
    {
        ValidatorPath { module: self.module.clone(), name: self.name.clone() }
    }
}

/// What a rule checks of the value of one field.
#[derive(Clone, Debug, PartialEq, Eq)]
pub enum RuleKind {
    /// The value is not the default of its type.
    NotDefault,
    /// No other row holds the value.
    Uniqueness,
    /// The value is neither an empty text nor a nil identifier.
    NonNil,
    /// The value holds something.
    Nonempty,
    /// The text has exactly this many bytes.
    LengthExact(usize),
    /// The text has at most this many bytes.
    LengthMax(usize),
    /// The text has at least this many bytes.
    LengthMin(usize),
    /// The collection has at most this many elements.
    ItemCountMax(usize),
    /// The collection has at least this many elements.
    ItemCountMin(usize),
    /// No two elements of the collection are equal.
    UniqueItems,
    /// The text has the named format.
    Format(String),
    /// The validator accepts the text.
    CustomValidator(ValidatorPath),
    /// Every value refers to a row of the named entity.
    ReferentialIntegrity(String),
}

/// The mathematical value of a [`RuleKind`].
pub enum RuleKindModel {
    NotDefault,
    Uniqueness,
    NonNil,
    Nonempty,
    LengthExact(nat),
    LengthMax(nat),
    LengthMin(nat),
    ItemCountMax(nat),
    ItemCountMin(nat),
    UniqueItems,
    Format(Seq<char>),
    CustomValidator(PathModel),
    ReferentialIntegrity(Seq<char>),
}

impl DeepView for RuleKind {
    type V = RuleKindModel;

    open spec fn deep_view(&self) -> RuleKindModel {
        match self {
            RuleKind::NotDefault => RuleKindModel::NotDefault,
            RuleKind::Uniqueness => RuleKindModel::Uniqueness,
            RuleKind::NonNil => RuleKindModel::NonNil,
            RuleKind::Nonempty => RuleKindModel::Nonempty,
            RuleKind::LengthExact(n) => RuleKindModel::LengthExact(*n as nat),
            RuleKind::LengthMax(n) => RuleKindModel::LengthMax(*n as nat),
            RuleKind::LengthMin(n) => RuleKindModel::LengthMin(*n as nat),
            RuleKind::ItemCountMax(n) => RuleKindModel::ItemCountMax(*n as nat),
            RuleKind::ItemCountMin(n) => RuleKindModel::ItemCountMin(*n as nat),
            RuleKind::UniqueItems => RuleKindModel::UniqueItems,
            RuleKind::Format(s) => RuleKindModel::Format(s@),
            RuleKind::CustomValidator(path) => RuleKindModel::CustomValidator(path@),
            RuleKind::ReferentialIntegrity(s) => RuleKindModel::ReferentialIntegrity(s@),
        }
    }
}

impl View for RuleKind {
    type V = RuleKindModel;

    open spec fn view(&self) -> RuleKindModel {
        self.deep_view()
    }
}

/// One column of a composite uniqueness rule: a field's name and position.
#[derive(Clone, Debug, PartialEq, Eq)]
pub struct Column {
    pub name: String,
    pub field: usize,
}

/// The mathematical value of a [`Column`].
pub struct ColumnModel {
    pub name: Seq<char>,
    pub field: int,
}

impl DeepView for Column {
    type V = ColumnModel;

    open spec fn deep_view(&self) -> ColumnModel {
        ColumnModel { name: self.name@, field: self.field as int }
    }
}

impl View for Column {
    type V = ColumnModel;

    open spec fn view(&self) -> ColumnModel {
        self.deep_view()
    }
}

/// One constraint rule of an entity.
#[derive(Clone, Debug, PartialEq, Eq)]
pub enum ConstraintRule {
    /// A rule on the value of the field at position `field`. Its failures
    /// are recorded under `name`, the field's name.
    Field { field: usize, name: String, kind: RuleKind },
    /// The combined values of the columns must be unique. Its failure is
    /// recorded under `label`.
    Composite { label: String, columns: Vec<Column> },
}

/// The mathematical value of a [`ConstraintRule`].
pub enum RuleModel {
    Field { field: int, name: Seq<char>, kind: RuleKindModel },
    Composite { label: Seq<char>, columns: Seq<ColumnModel> },
}

impl DeepView for ConstraintRule {
    type V = RuleModel;

    open spec fn deep_view(&self) -> RuleModel {
        match self {
            ConstraintRule::Field { field, name, kind } => RuleModel::Field {
                field: *field as int,
                name: name@,
                kind: kind@,
            },
            ConstraintRule::Composite { label, columns } => RuleModel::Composite {
                label: label@,
                columns: columns.deep_view(),
            },
        }
    }
}

impl View for ConstraintRule {
    type V = RuleModel;

    open spec fn view(&self) -> RuleModel {
        self.deep_view()
    }
}

/// The count that a payload writes; zero where it writes none.
pub open spec fn count_or_zero(payload: Option<Seq<char>>) -> nat {
    match payload {
        Some(p) => match parsed_count(p) {
            Some(n) => n,
            None => 0,
        },
        None => 0,
    }
}

/// The count that a payload writes, if it writes one.
pub open spec fn count_of(payload: Option<Seq<char>>) -> Option<nat> {
    match payload {
        Some(p) => parsed_count(p),
        None => None,
    }
}

/// The field's type is the map type.
pub open spec fn is_map(field: FieldModel) -> bool {
    field.declared_type == "Map"@
}

/// The rule that one attribute of a field gives rise to, if any. The shape
/// of the field decides; an attribute that does not apply to the shape
/// gives no rule.
pub open spec fn rule_for(field: FieldModel, attribute: AttributeModel) -> Option<RuleKindModel> {
    let shape = field.shape();
    let readable = !field.has(AttributeKind::WriteOnly);
    let textual = shape == TypeShape::Text || shape == TypeShape::OptionalText;
    match attribute.kind {
        AttributeKind::Unique => Some(RuleKindModel::Uniqueness),
        AttributeKind::NotNull => if readable && (shape == TypeShape::Text || shape
            == TypeShape::Identifier) {
            Some(RuleKindModel::NonNil)
        } else {
            None
        },
        AttributeKind::Nonempty => if readable && (shape == TypeShape::Text || shape
            == TypeShape::OpaqueCollection || is_map(field)) {
            Some(RuleKindModel::Nonempty)
        } else {
            None
        },
        AttributeKind::Length => if textual {
            Some(RuleKindModel::LengthExact(count_or_zero(attribute.payload)))
        } else {
            None
        },
        AttributeKind::MaxLength => if textual {
            Some(RuleKindModel::LengthMax(count_or_zero(attribute.payload)))
        } else {
            None
        },
        AttributeKind::MinLength => if textual {
            Some(RuleKindModel::LengthMin(count_or_zero(attribute.payload)))
        } else {
            None
        },
        AttributeKind::MaxItems => match count_of(attribute.payload) {
            Some(n) if shape.is_collection() => Some(RuleKindModel::ItemCountMax(n)),
            _ => None,
        },
        AttributeKind::MinItems => match count_of(attribute.payload) {
            Some(n) if shape.is_collection() => Some(RuleKindModel::ItemCountMin(n)),
            _ => None,
        },
        AttributeKind::UniqueItems => if shape.is_collection() {
            Some(RuleKindModel::UniqueItems)
        } else {
            None
        },
        AttributeKind::Format => match attribute.payload {
            Some(format) if shape == TypeShape::Text => Some(RuleKindModel::Format(format)),
            _ => None,
        },
        AttributeKind::Validator => match attribute.payload {
            Some(validator) if shape == TypeShape::Text => Some(
                RuleKindModel::CustomValidator(resolved(validator)),
            ),
            _ => None,
        },
        AttributeKind::Reference => match attribute.payload {
            Some(target) => Some(RuleKindModel::ReferentialIntegrity(target)),
            None => None,
        },
        _ => None,
    }
}

/// What one attribute contributes to the rules of the field at position
/// `index`.
pub open spec fn attribute_rules(index: int, field: FieldModel) -> spec_fn(
    int,
    AttributeModel,
) -> Seq<RuleModel> {
    |j: int, attribute: AttributeModel|
        match rule_for(field, attribute) {
            Some(kind) => seq![RuleModel::Field { field: index, name: field.name, kind }],
            None => Seq::empty(),
        }
}

/// The rules of one field, in the order of its attributes.
pub open spec fn field_rules(index: int, field: FieldModel) -> Seq<RuleModel> {
    gather(field.attributes, attribute_rules(index, field))
}

/// What one field contributes to the rules of an entity.
pub open spec fn each_field_rules() -> spec_fn(int, FieldModel) -> Seq<RuleModel> {
    |i: int, field: FieldModel| field_rules(i, field)
}

/// The position of the first field with the given name, if there is one.
pub open spec fn position_of(fields: Seq<FieldModel>, name: Seq<char>) -> Option<int>
    decreases fields.len(),
{
    if fields.len() == 0 {
        None
    } else {
        match position_of(fields.drop_last(), name) {
            Some(i) => Some(i),
            None => if fields.last().name == name {
                Some(fields.len() - 1)
            } else {
                None
            },
        }
    }
}

/// What one name of a uniqueness group contributes to its columns: the
/// field of that name, where the entity has one.
pub open spec fn named_column(fields: Seq<FieldModel>) -> spec_fn(int, Seq<char>) -> Seq<
    ColumnModel,
> {
    |k: int, name: Seq<char>|
        match position_of(fields, name) {
            Some(i) => seq![ColumnModel { name, field: i }],
            None => Seq::empty(),
        }
}

/// The rule of one uniqueness group. Its label joins the group's names with
/// underscores; its columns are the named fields that the entity has.
pub open spec fn composite_rule(fields: Seq<FieldModel>, names: Seq<Seq<char>>) -> RuleModel {
    RuleModel::Composite {
        label: joined(names, "_"@),
        columns: gather(names, named_column(fields)),
    }
}

/// What one uniqueness group contributes to the rules of an entity.
pub open spec fn each_composite_rule(fields: Seq<FieldModel>) -> spec_fn(
    int,
    Seq<Seq<char>>,
) -> Seq<RuleModel> {
    |g: int, names: Seq<Seq<char>>| seq![composite_rule(fields, names)]
}

/// The rule on the primary key: it must not hold the default of its type,
/// unless the storage generates it.
pub open spec fn primary_key_rules(schema: SchemaModel) -> Seq<RuleModel> {
    let index = schema.primary_key();
    let field = schema.fields[index];
    if field.has(AttributeKind::AutoIncrement) {
        Seq::empty()
    } else {
        seq![RuleModel::Field { field: index, name: field.name, kind: RuleKindModel::NotDefault }]
    }
}

/// The rules of an entity, in evaluation order: the rule on the primary
/// key, the composite uniqueness rules in the order of the groups, then
/// the rules of each field in declaration order, and within a field in the
/// order of its attributes.
pub open spec fn rules_of(schema: SchemaModel) -> Seq<RuleModel> {
    primary_key_rules(schema) + gather(schema.unique_on, each_composite_rule(schema.fields))
        + gather(schema.fields, each_field_rules())
}

/// Every rule of a field is a rule on that field, recorded under its name.
pub proof fn lemma_field_rules_name_the_field(index: int, field: FieldModel, p: int)
    requires
        0 <= p < field_rules(index, field).len(),
    ensures
        field_rules(index, field)[p] is Field,
        field_rules(index, field)[p]->field == index,
        field_rules(index, field)[p]->name == field.name,
{
    lemma_gathered_rules_name_the_field(index, field, field.attributes, p);
}

proof fn lemma_gathered_rules_name_the_field(
    index: int,
    field: FieldModel,
    attributes: Seq<AttributeModel>,
    p: int,
)
    requires
        0 <= p < gather(attributes, attribute_rules(index, field)).len(),
    ensures
        gather(attributes, attribute_rules(index, field))[p] is Field,
        gather(attributes, attribute_rules(index, field))[p]->field == index,
        gather(attributes, attribute_rules(index, field))[p]->name == field.name,
    decreases attributes.len(),
{
    if attributes.len() > 0 {
        let head = gather(attributes.drop_last(), attribute_rules(index, field));
        if p < head.len() {
            lemma_gathered_rules_name_the_field(index, field, attributes.drop_last(), p);
        }
    }
}

/// The rules of the fields stand in declaration order: a rule never stands
/// before a rule of an earlier field.
pub proof fn lemma_rules_in_declaration_order(fields: Seq<FieldModel>, p: int, q: int)
    requires
        0 <= p <= q < gather(fields, each_field_rules()).len(),
    ensures
        gather(fields, each_field_rules())[p] is Field,
        gather(fields, each_field_rules())[q] is Field,
        0 <= gather(fields, each_field_rules())[p]->field <= gather(
            fields,
            each_field_rules(),
        )[q]->field < fields.len(),
    decreases fields.len(),
{
    if fields.len() > 0 {
        let head = gather(fields.drop_last(), each_field_rules());
        let n = fields.len() - 1;
        if q < head.len() {
            lemma_rules_in_declaration_order(fields.drop_last(), p, q);
        } else {
            lemma_field_rules_name_the_field(n, fields.last(), q - head.len());
            if p < head.len() {
                lemma_rules_in_declaration_order(fields.drop_last(), p, p);
            } else {
                lemma_field_rules_name_the_field(n, fields.last(), p - head.len());
            }
        }
    }
}

fn payload_count(payload: &Option<String>) -> (count: Option<usize>)
    ensures
        match count {
            Some(n) => count_of(payload.deep_view()) == Some(n as nat),
            None => count_of(payload.deep_view()) is None,
        },
{
    match payload {
        Some(p) => parse_count(p.as_str()),
        None => None,
    }
}

fn payload_count_or_zero(payload: &Option<String>) -> (count: usize)
    ensures
        count as nat == count_or_zero(payload.deep_view()),
{
    match payload_count(payload) {
        Some(n) => n,
        None => 0,
    }
}

/// Synthesizes the rule that one attribute of a field gives rise to, if
/// any.
pub fn synthesize_rule(field: &FieldSchema, attribute: &Attribute) -> (kind: Option<RuleKind>)
    ensures
        kind.deep_view() == rule_for(field@, attribute@),
{
    let shape = field.shape();
    let textual = shape == TypeShape::Text || shape == TypeShape::OptionalText;
    match attribute.kind {
        AttributeKind::Unique => Some(RuleKind::Uniqueness),
        AttributeKind::NotNull => {
            if (shape == TypeShape::Text || shape == TypeShape::Identifier) && !field.has(
                AttributeKind::WriteOnly,
            ) {
                Some(RuleKind::NonNil)
            } else {
                None
            }
        },
        AttributeKind::Nonempty => {
            if (shape == TypeShape::Text || shape == TypeShape::OpaqueCollection || text_eq(
                field.declared_type(),
                "Map",
            )) && !field.has(AttributeKind::WriteOnly) {
                Some(RuleKind::Nonempty)
            } else {
                None
            }
        },
        AttributeKind::Length => {
            if textual {
                Some(RuleKind::LengthExact(payload_count_or_zero(&attribute.payload)))
            } else {
                None
            }
        },
        AttributeKind::MaxLength => {
            if textual {
                Some(RuleKind::LengthMax(payload_count_or_zero(&attribute.payload)))
            } else {
                None
            }
        },
        AttributeKind::MinLength => {
            if textual {
                Some(RuleKind::LengthMin(payload_count_or_zero(&attribute.payload)))
            } else {
                None
            }
        },
        AttributeKind::MaxItems => {
            match payload_count(&attribute.payload) {
                Some(n) => if shape.is_collection() {
                    Some(RuleKind::ItemCountMax(n))
                } else {
                    None
                },
                None => None,
            }
        },
        AttributeKind::MinItems => {
            match payload_count(&attribute.payload) {
                Some(n) => if shape.is_collection() {
                    Some(RuleKind::ItemCountMin(n))
                } else {
                    None
                },
                None => None,
            }
        },
        AttributeKind::UniqueItems => {
            if shape.is_collection() {
                Some(RuleKind::UniqueItems)
            } else {
                None
            }
        },
        AttributeKind::Format => {
            match &attribute.payload {
                Some(format) => if shape == TypeShape::Text {
                    Some(RuleKind::Format(format.clone()))
                } else {
                    None
                },
                None => None,
            }
        },
        AttributeKind::Validator => {
            match &attribute.payload {
                Some(validator) => if shape == TypeShape::Text {
                    Some(RuleKind::CustomValidator(ValidatorPath::resolve(validator.as_str())))
                } else {
                    None
                },
                None => None,
            }
        },
        AttributeKind::Reference => {
            match &attribute.payload {
                Some(target) => Some(RuleKind::ReferentialIntegrity(target.clone())),
                None => None,
            }
        },
        _ => None,
    }
}

/// Finds the first field with the given name.
pub fn find_field(fields: &Vec<FieldSchema>, name: &str) -> (position: Option<usize>)
    ensures
        match position {
            Some(i) => position_of(fields.deep_view(), name@) == Some(i as int),
            None => position_of(fields.deep_view(), name@) is None,
        },
{
    let ghost model = fields.deep_view();
    let mut found: Option<usize> = None;
    let mut i: usize = 0;
    while i < fields.len()
        invariant
            i <= fields.len(),
            model == fields.deep_view(),
            match found {
                Some(k) => position_of(model.take(i as int), name@) == Some(k as int),
                None => position_of(model.take(i as int), name@) is None,
            },
        decreases fields.len() - i,
    {
        proof {
            assert(model.take(i + 1).drop_last() =~= model.take(i as int));
        }
        if found.is_none() && text_eq(fields[i].name(), name) {
            found = Some(i);
        }
        i += 1;
    }
    assert(model.take(i as int) =~= model);
    found
}

/// Synthesizes the rule of one uniqueness group.
pub fn synthesize_composite(fields: &Vec<FieldSchema>, names: &Vec<String>) -> (rule:
    ConstraintRule)
    ensures
        rule@ == composite_rule(fields.deep_view(), names.deep_view()),
{
    let ghost model = names.deep_view();
    let ghost each = named_column(fields.deep_view());
    let mut columns: Vec<Column> = Vec::new();
    let mut k: usize = 0;
    proof {
        lemma_gather_ends(model, each);
        assert(columns.deep_view() =~= Seq::<ColumnModel>::empty());
    }
    while k < names.len()
        invariant
            k <= names.len(),
            model == names.deep_view(),
            each == named_column(fields.deep_view()),
            columns.deep_view() == gather(model.take(k as int), each),
        decreases names.len() - k,
    {
        proof {
            lemma_gather_step(model, each, k as int);
        }
        match find_field(fields, names[k].as_str()) {
            Some(i) => {
                let column = Column { name: names[k].clone(), field: i };
                let ghost before = columns;
                let ghost pushed = column;
                columns.push(column);
                proof {
                    lemma_push_deep_view(before, columns, pushed);
                    assert(columns.deep_view() =~= gather(model.take(k as int), each) + each(
                        k as int,
                        model[k as int],
                    ));
                }
            },
            None => {
                assert(gather(model.take(k as int), each) + each(k as int, model[k as int])
                    =~= gather(model.take(k as int), each));
            },
        }
        k += 1;
    }
    proof {
        lemma_gather_ends(model, each);
    }
    ConstraintRule::Composite { label: join(names, "_"), columns }
}

fn push_rule(rules: &mut Vec<ConstraintRule>, rule: ConstraintRule)
    ensures
        final(rules).deep_view() == old(rules).deep_view().push(rule@),
{
    let ghost before = *rules;
    let ghost pushed = rule;
    rules.push(rule);
    proof {
        lemma_push_deep_view(before, *rules, pushed);
    }
}

fn push_field_rules(rules: &mut Vec<ConstraintRule>, index: usize, field: &FieldSchema)
    ensures
        final(rules).deep_view() == old(rules).deep_view() + field_rules(index as int, field@),
{
    let ghost start = rules.deep_view();
    let ghost each = attribute_rules(index as int, field@);
    let attributes = field.attributes();
    let ghost model = attributes.deep_view();
    let mut j: usize = 0;
    proof {
        lemma_gather_ends(model, each);
        assert(start + Seq::<RuleModel>::empty() =~= start);
    }
    while j < attributes.len()
        invariant
            j <= attributes.len(),
            model == attributes.deep_view(),
            model == field@.attributes,
            each == attribute_rules(index as int, field@),
            rules.deep_view() == start + gather(model.take(j as int), each),
        decreases attributes.len() - j,
    {
        proof {
            lemma_gather_step(model, each, j as int);
        }
        match synthesize_rule(field, &attributes[j]) {
            Some(kind) => {
                let rule = ConstraintRule::Field {
                    field: index,
                    name: String::from_str(field.name()),
                    kind,
                };
                push_rule(rules, rule);
                assert(rules.deep_view() =~= start + gather(model.take(j + 1), each));
            },
            None => {
                assert(start + gather(model.take(j + 1), each) =~= start + gather(
                    model.take(j as int),
                    each,
                ));
            },
        }
        j += 1;
    }
    proof {
        lemma_gather_ends(model, each);
    }
}

/// Synthesizes the constraint rules of an entity.
pub fn synthesize_rules(schema: &EntitySchema) -> (rules: Vec<ConstraintRule>)
    ensures
        rules.deep_view() == rules_of(schema@),
{
    let fields = schema.fields();
    let groups = schema.unique_on();
    let mut rules: Vec<ConstraintRule> = Vec::new();
    assert(rules.deep_view() =~= Seq::<RuleModel>::empty());
    let key = schema.primary_key();
    if !fields[key].has(AttributeKind::AutoIncrement) {
        let rule = ConstraintRule::Field {
            field: key,
            name: String::from_str(fields[key].name()),
            kind: RuleKind::NotDefault,
        };
        push_rule(&mut rules, rule);
    }
    assert(rules.deep_view() =~= primary_key_rules(schema@));
    let ghost composite = each_composite_rule(schema@.fields);
    let mut g: usize = 0;
    proof {
        lemma_gather_ends(schema@.unique_on, composite);
        assert(primary_key_rules(schema@) + Seq::<RuleModel>::empty() =~= primary_key_rules(
            schema@,
        ));
    }
    while g < groups.len()
        invariant
            g <= groups.len(),
            groups.deep_view() == schema@.unique_on,
            fields.deep_view() == schema@.fields,
            composite == each_composite_rule(schema@.fields),
            rules.deep_view() == primary_key_rules(schema@) + gather(
                schema@.unique_on.take(g as int),
                composite,
            ),
        decreases groups.len() - g,
    {
        proof {
            lemma_gather_step(schema@.unique_on, composite, g as int);
        }
        let rule = synthesize_composite(fields, &groups[g]);
        push_rule(&mut rules, rule);
        g += 1;
        assert(rules.deep_view() =~= primary_key_rules(schema@) + gather(
            schema@.unique_on.take(g as int),
            composite,
        ));
    }
    let ghost entity = primary_key_rules(schema@) + gather(schema@.unique_on, composite);
    let ghost each = each_field_rules();
    let mut i: usize = 0;
    proof {
        lemma_gather_ends(schema@.unique_on, composite);
        lemma_gather_ends(schema@.fields, each);
        assert(entity + Seq::<RuleModel>::empty() =~= entity);
    }
    while i < fields.len()
        invariant
            i <= fields.len(),
            fields.deep_view() == schema@.fields,
            each == each_field_rules(),
            rules.deep_view() == entity + gather(schema@.fields.take(i as int), each),
        decreases fields.len() - i,
    {
        proof {
            lemma_gather_step(schema@.fields, each, i as int);
        }
        push_field_rules(&mut rules, i, &fields[i]);
        i += 1;
        assert(rules.deep_view() =~= entity + gather(schema@.fields.take(i as int), each));
    }
    proof {
        lemma_gather_ends(schema@.fields, each);
    }
    rules
}

} // verus!
