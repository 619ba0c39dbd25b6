//! Constraint evaluation: what each rule asks of the storage for an
//! instance, and which failure it records once the storage has answered.

use crate::identifier::identifier_text;
use crate::rule::{
    Column, ColumnModel, ConstraintRule, PathModel, RuleKind, RuleKindModel, RuleModel, ValidatorPath,
};
use crate::seqs::{gather, lemma_gather_ends, lemma_gather_step, lemma_push_deep_view};
use crate::text::{decimal, decimal_text};
use crate::value::{value_at, FieldValue, Instance, ValueModel};
use vstd::prelude::*;
use vstd::string::*;

verus! {

/// A column of a uniqueness question: the column's name and the value
/// looked for, as text.
#[derive(Clone, Debug, PartialEq, Eq)]
pub struct ColumnValue {
    pub name: String,
    pub value: String,
}

/// The mathematical value of a [`ColumnValue`].
pub struct ColumnValueModel {
    pub name: Seq<char>,
    pub value: Seq<char>,
}

impl DeepView for ColumnValue {
    type V = ColumnValueModel;

    open spec fn deep_view(&self) -> ColumnValueModel {
        ColumnValueModel { name: self.name@, value: self.value@ }
    }
}

impl View for ColumnValue {
    type V = ColumnValueModel;

    open spec fn view(&self) -> ColumnValueModel {
        self.deep_view()
    }
}

/// A question that a rule asks of a collaborator outside the evaluation.
#[derive(Clone, Debug, PartialEq, Eq)]
pub enum Request {
    /// Is this instance the only row with these values in these columns?
    IsUniqueOn(Vec<ColumnValue>),
    /// How many rows of the entity match one of these values?
    FilterByValues { entity: String, values: Vec<String> },
    /// Does the value have the named format?
    CheckFormat { format: String, value: String },
    /// Does the validator accept the value?
    Validate { validator: ValidatorPath, value: String },
}

/// The mathematical value of a [`Request`].
pub enum RequestModel {
    IsUniqueOn(Seq<ColumnValueModel>),
    FilterByValues { entity: Seq<char>, values: Seq<Seq<char>> },
    CheckFormat { format: Seq<char>, value: Seq<char> },
    Validate { validator: PathModel, value: Seq<char> },
}

impl DeepView for Request {
    type V = RequestModel;

    open spec fn deep_view(&self) -> RequestModel {
        match self {
            Request::IsUniqueOn(columns) => RequestModel::IsUniqueOn(columns.deep_view()),
            Request::FilterByValues { entity, values } => RequestModel::FilterByValues {
                entity: entity@,
                values: values.deep_view(),
            },
            Request::CheckFormat { format, value } => RequestModel::CheckFormat {
                format: format@,
                value: value@,
            },
            Request::Validate { validator, value } => RequestModel::Validate {
                validator: validator@,
                value: value@,
            },
        }
    }
}

impl View for Request {
    type V = RequestModel;

    open spec fn view(&self) -> RequestModel {
        self.deep_view()
    }
}

/// What a collaborator answered to a [`Request`].
#[derive(Clone, Debug, PartialEq, Eq)]
pub enum Answer {
    /// To `IsUniqueOn`: whether the values are unique.
    Unique(bool),
    /// To `FilterByValues`: the number of rows that matched.
    Matched(usize),
    /// To `CheckFormat` or `Validate`: the value passed.
    Accepted,
    /// To `CheckFormat` or `Validate`: the value did not pass, and why.
    Rejected(String),
}

/// The mathematical value of an [`Answer`].
pub enum AnswerModel {
    Unique(bool),
    Matched(nat),
    Accepted,
    Rejected(Seq<char>),
}

impl DeepView for Answer {
    type V = AnswerModel;

    open spec fn deep_view(&self) -> AnswerModel {
        match self {
            Answer::Unique(unique) => AnswerModel::Unique(*unique),
            Answer::Matched(count) => AnswerModel::Matched(*count as nat),
            Answer::Accepted => AnswerModel::Accepted,
            Answer::Rejected(reason) => AnswerModel::Rejected(reason@),
        }
    }
}

impl View for Answer {
    type V = AnswerModel;

    open spec fn view(&self) -> AnswerModel {
        self.deep_view()
    }
}

/// A validation failure: the name it is recorded under, and its message.
#[derive(Clone, Debug, PartialEq, Eq)]
pub struct Failure {
    pub field: String,
    pub message: String,
}

/// The mathematical value of a [`Failure`].
pub struct FailureModel {
    pub field: Seq<char>,
    pub message: Seq<char>,
}

impl DeepView for Failure {
    type V = FailureModel;

    open spec fn deep_view(&self) -> FailureModel {
        FailureModel { field: self.field@, message: self.message@ }
    }
}

impl View for Failure {
    type V = FailureModel;

    open spec fn view(&self) -> FailureModel {
        self.deep_view()
    }
}

/// The text that a uniqueness rule looks for, or nothing where the rule
/// does not ask: a nil identifier, an empty text and an absent text are
/// not looked for; every other value is, as it stands.
pub open spec fn unique_probe(value: ValueModel) -> Option<Seq<char>> {
    match value {
        ValueModel::Identifier(id) => if id.bits == 0 {
            None
        } else {
            Some(identifier_text(id.bits))
        },
        ValueModel::Text(s) => if s.len() == 0 {
            None
        } else {
            Some(s)
        },
        ValueModel::OptionalText(Some(s)) => if s.len() == 0 {
            None
        } else {
            Some(s)
        },
        ValueModel::OptionalText(None) => None,
        _ => Some(value.text()),
    }
}

/// The text that a format or validator rule hands on: a text that is not
/// empty.
pub open spec fn text_probe(value: ValueModel) -> Option<Seq<char>> {
    match value {
        ValueModel::Text(s) => if s.len() == 0 {
            None
        } else {
            Some(s)
        },
        _ => None,
    }
}

/// What one column of a composite rule contributes to the question: its
/// name and the text of its field's value, where the instance has one.
pub open spec fn column_value(values: Seq<ValueModel>) -> spec_fn(int, ColumnModel) -> Seq<
    ColumnValueModel,
> {
    |k: int, column: ColumnModel|
        match value_at(values, column.field) {
            Some(value) => seq![ColumnValueModel { name: column.name, value: value.text() }],
            None => Seq::empty(),
        }
}

/// The question that a rule asks for an instance, or nothing where the
/// rule decides by itself.
pub open spec fn request_of(rule: RuleModel, values: Seq<ValueModel>) -> Option<RequestModel> {
    match rule {
        RuleModel::Field { field, name, kind } => match value_at(values, field) {
            None => None,
            Some(value) => match kind {
                RuleKindModel::Uniqueness => match unique_probe(value) {
                    Some(text) => Some(
                        RequestModel::IsUniqueOn(seq![ColumnValueModel { name, value: text }]),
                    ),
                    None => None,
                },
                RuleKindModel::Format(format) => match text_probe(value) {
                    Some(text) => Some(RequestModel::CheckFormat { format, value: text }),
                    None => None,
                },
                RuleKindModel::CustomValidator(validator) => match text_probe(value) {
                    Some(text) => Some(RequestModel::Validate { validator, value: text }),
                    None => None,
                },
                RuleKindModel::ReferentialIntegrity(entity) => if value.items().len() > 0 {
                    Some(RequestModel::FilterByValues { entity, values: value.items() })
                } else {
                    None
                },
                _ => None,
            },
        },
        RuleModel::Composite { label, columns } => Some(
            RequestModel::IsUniqueOn(gather(columns, column_value(values))),
        ),
    }
}

/// The answer is of the kind that the request asks for.
pub open spec fn answers(request: RequestModel, answer: AnswerModel) -> bool {
    match request {
        RequestModel::IsUniqueOn(_) => answer is Unique,
        RequestModel::FilterByValues { .. } => answer is Matched,
        RequestModel::CheckFormat { .. } => answer is Accepted || answer is Rejected,
        RequestModel::Validate { .. } => answer is Accepted || answer is Rejected,
    }
}

/// The rule has what it needs to decide: it asks nothing, or its question
/// has an answer of the right kind.
pub open spec fn settled(rule: RuleModel, values: Seq<ValueModel>, answer: Option<AnswerModel>) -> bool {
    match request_of(rule, values) {
        None => true,
        Some(request) => match answer {
            Some(a) => answers(request, a),
            None => false,
        },
    }
}

/// The failure of a rule of the given kind on a value, given the answer to
/// its question. The message only; it is recorded under the field's name.
pub open spec fn verdict(kind: RuleKindModel, value: ValueModel, answer: Option<AnswerModel>) -> Option<
    Seq<char>,
> {
    match kind {
        RuleKindModel::NotDefault => if value.is_default() {
            Some("should not be a default value"@)
        } else {
            None
        },
        RuleKindModel::Uniqueness => match unique_probe(value) {
            Some(text) => if answer == Some(AnswerModel::Unique(false)) {
                Some("the value `"@ + text + "` is not unique"@)
            } else {
                None
            },
            None => None,
        },
        RuleKindModel::NonNil => match value {
            ValueModel::Text(s) => if s.len() == 0 {
                Some("it should be nonempty"@)
            } else {
                None
            },
            ValueModel::Identifier(id) => if id.bits == 0 {
                Some("it should not be nil"@)
            } else {
                None
            },
            _ => None,
        },
        RuleKindModel::Nonempty => if value.is_empty() {
            Some("it should be nonempty"@)
        } else {
            None
        },
        RuleKindModel::LengthExact(n) => match value.text_length() {
            Some(length) => if length != n {
                Some("the length should be "@ + decimal(n))
            } else {
                None
            },
            None => None,
        },
        RuleKindModel::LengthMax(n) => match value.text_length() {
            Some(length) => if length > n {
                Some("the length should be at most "@ + decimal(n))
            } else {
                None
            },
            None => None,
        },
        RuleKindModel::LengthMin(n) => match value.text_length() {
            Some(length) => if length < n {
                Some("the length should be at least "@ + decimal(n))
            } else {
                None
            },
            None => None,
        },
        RuleKindModel::ItemCountMax(n) => match value.item_count() {
            Some(count) => if count > n {
                Some("the length should be at most "@ + decimal(n))
            } else {
                None
            },
            None => None,
        },
        RuleKindModel::ItemCountMin(n) => match value.item_count() {
            Some(count) => if count < n {
                Some("the length should be at least "@ + decimal(n))
            } else {
                None
            },
            None => None,
        },
        RuleKindModel::UniqueItems => if value.has_duplicate() {
            Some("array items should be unique"@)
        } else {
            None
        },
        RuleKindModel::Format(_) => match (text_probe(value), answer) {
            (Some(_), Some(AnswerModel::Rejected(reason))) => Some(reason),
            _ => None,
        },
        RuleKindModel::CustomValidator(_) => match (text_probe(value), answer) {
            (Some(_), Some(AnswerModel::Rejected(reason))) => Some(reason),
            _ => None,
        },
        RuleKindModel::ReferentialIntegrity(_) => match answer {
            Some(AnswerModel::Matched(found)) => if value.items().len() > 0 && found
                != value.items().len() {
                if value.is_collection() {
                    Some("there are nonexistent values"@)
                } else {
                    Some("it is a nonexistent value"@)
                }
            } else {
                None
            },
            _ => None,
        },
    }
}

/// The failure that a rule records for an instance, given the answer to
/// its question; nothing where the rule is met.
pub open spec fn failure_of(rule: RuleModel, values: Seq<ValueModel>, answer: Option<AnswerModel>) -> Option<
    FailureModel,
> {
    match rule {
        RuleModel::Field { field, name, kind } => match value_at(values, field) {
            None => None,
            Some(value) => match verdict(kind, value, answer) {
                Some(message) => Some(FailureModel { field: name, message }),
                None => None,
            },
        },
        RuleModel::Composite { label, columns } => if answer == Some(AnswerModel::Unique(false)) {
            Some(FailureModel { field: label, message: "the composite values should be unique"@ })
        } else {
            None
        },
    }
}

fn numbered(prefix: &str, n: usize) -> (message: String)
    ensures
        message@ == prefix@ + decimal(n as nat),
{
    let mut message = String::from_str(prefix);
    let number = decimal_text(n);
    message.append(number.as_str());
    message
}

fn unique_probe_of(value: &FieldValue) -> (probe: Option<String>)
    ensures
        probe.deep_view() == unique_probe(value@),
{
    match value {
        FieldValue::Identifier(id) => {
            if id.is_nil() {
                None
            } else {
                Some(id.to_text())
            }
        },
        FieldValue::Text(s) => {
            if s.as_str().is_empty() {
                None
            } else {
                Some(s.clone())
            }
        },
        FieldValue::OptionalText(Some(s)) => {
            if s.as_str().is_empty() {
                None
            } else {
                Some(s.clone())
            }
        },
        FieldValue::OptionalText(None) => None,
        _ => Some(value.text()),
    }
}

fn text_probe_of(value: &FieldValue) -> (probe: Option<String>)
    ensures
        probe.deep_view() == text_probe(value@),
{
    match value {
        FieldValue::Text(s) => {
            if s.as_str().is_empty() {
                None
            } else {
                Some(s.clone())
            }
        },
        _ => None,
    }
}

fn column_values(columns: &Vec<Column>, instance: &Instance) -> (out: Vec<ColumnValue>)
    ensures
        out.deep_view() == gather(columns.deep_view(), column_value(instance@)),
{
    let ghost model = columns.deep_view();
    let ghost each = column_value(instance@);
    let mut out: Vec<ColumnValue> = Vec::new();
    let mut k: usize = 0;
    proof {
        lemma_gather_ends(model, each);
        assert(out.deep_view() =~= Seq::<ColumnValueModel>::empty());
    }
    while k < columns.len()
        invariant
            k <= columns.len(),
            model == columns.deep_view(),
            each == column_value(instance@),
            out.deep_view() == gather(model.take(k as int), each),
        decreases columns.len() - k,
    {
        proof {
            lemma_gather_step(model, each, k as int);
        }
        match instance.get(columns[k].field) {
            Some(value) => {
                let item = ColumnValue { name: columns[k].name.clone(), value: value.text() };
                let ghost before = out;
                let ghost pushed = item;
                out.push(item);
                proof {
                    lemma_push_deep_view(before, out, pushed);
                    assert(out.deep_view() =~= gather(model.take(k as int), each) + each(
                        k as int,
                        model[k as int],
                    ));
                }
            },
            None => {
                assert(gather(model.take(k as int), each) + each(k as int, model[k as int])
                    =~= gather(model.take(k as int), each));
            },
        }
        k += 1;
    }
    proof {
        lemma_gather_ends(model, each);
    }
    out
}

fn one_column(name: &String, value: String) -> (out: Vec<ColumnValue>)
    ensures
        out.deep_view() == seq![ColumnValueModel { name: name@, value: value@ }],
{
    let mut out: Vec<ColumnValue> = Vec::new();
    out.push(ColumnValue { name: name.clone(), value });
    assert(out.deep_view() =~= seq![ColumnValueModel { name: name@, value: value@ }]);
    out
}

fn verdict_of(kind: &RuleKind, value: &FieldValue, answer: Option<&Answer>) -> (message: Option<
    String,
>)
    ensures
        message.deep_view() == verdict(kind@, value@, answer.deep_view()),
{
    match kind {
        RuleKind::NotDefault => {
            if value.is_default() {
                Some(String::from_str("should not be a default value"))
            } else {
                None
            }
        },
        RuleKind::Uniqueness => {
            match unique_probe_of(value) {
                Some(text) => match answer {
                    Some(Answer::Unique(false)) => {
                        let mut message = String::from_str("the value `");
                        message.append(text.as_str());
                        message.append("` is not unique");
                        Some(message)
                    },
                    _ => None,
                },
                None => None,
            }
        },
        RuleKind::NonNil => {
            match value {
                FieldValue::Text(s) => if s.as_str().is_empty() {
                    Some(String::from_str("it should be nonempty"))
                } else {
                    None
                },
                FieldValue::Identifier(id) => if id.is_nil() {
                    Some(String::from_str("it should not be nil"))
                } else {
                    None
                },
                _ => None,
            }
        },
        RuleKind::Nonempty => {
            if value.is_empty() {
                Some(String::from_str("it should be nonempty"))
            } else {
                None
            }
        },
        RuleKind::LengthExact(n) => {
            match value.text_length() {
                Some(length) => if length != *n {
                    Some(numbered("the length should be ", *n))
                } else {
                    None
                },
                None => None,
            }
        },
        RuleKind::LengthMax(n) => {
            match value.text_length() {
                Some(length) => if length > *n {
                    Some(numbered("the length should be at most ", *n))
                } else {
                    None
                },
                None => None,
            }
        },
        RuleKind::LengthMin(n) => {
            match value.text_length() {
                Some(length) => if length < *n {
                    Some(numbered("the length should be at least ", *n))
                } else {
                    None
                },
                None => None,
            }
        },
        RuleKind::ItemCountMax(n) => {
            match value.item_count() {
                Some(count) => if count > *n {
                    Some(numbered("the length should be at most ", *n))
                } else {
                    None
                },
                None => None,
            }
        },
        RuleKind::ItemCountMin(n) => {
            match value.item_count() {
                Some(count) => if count < *n {
                    Some(numbered("the length should be at least ", *n))
                } else {
                    None
                },
                None => None,
            }
        },
        RuleKind::UniqueItems => {
            if value.has_duplicate() {
                Some(String::from_str("array items should be unique"))
            } else {
                None
            }
        },
        RuleKind::Format(_) => {
            match (text_probe_of(value), answer) {
                (Some(_), Some(Answer::Rejected(reason))) => Some(reason.clone()),
                _ => None,
            }
        },
        RuleKind::CustomValidator(_) => {
            match (text_probe_of(value), answer) {
                (Some(_), Some(Answer::Rejected(reason))) => Some(reason.clone()),
                _ => None,
            }
        },
        RuleKind::ReferentialIntegrity(_) => {
            match answer {
                Some(Answer::Matched(found)) => {
                    let items = value.items();
                    if items.len() > 0 && *found != items.len() {
                        if value.is_collection() {
                            Some(String::from_str("there are nonexistent values"))
                        } else {
                            Some(String::from_str("it is a nonexistent value"))
                        }
                    } else {
                        None
                    }
                },
                _ => None,
            }
        },
    }
}

impl ConstraintRule {
    /// The question that the rule asks for an instance, if it asks one.
    pub fn request(&self, instance: &Instance) -> (request: Option<Request>)
        ensures
            request.deep_view() == request_of(self@, instance@),
    {
        match self {
            ConstraintRule::Field { field, name, kind } => {
                match instance.get(*field) {
                    None => None,
                    Some(value) => match kind {
                        RuleKind::Uniqueness => match unique_probe_of(value) {
                            Some(text) => Some(Request::IsUniqueOn(one_column(name, text))),
                            None => None,
                        },
                        RuleKind::Format(format) => match text_probe_of(value) {
                            Some(text) => Some(
                                Request::CheckFormat { format: format.clone(), value: text },
                            ),
                            None => None,
                        },
                        RuleKind::CustomValidator(validator) => match text_probe_of(value) {
                            Some(text) => Some(
                                Request::Validate { validator: validator.duplicate(), value: text },
                            ),
                            None => None,
                        },
                        RuleKind::ReferentialIntegrity(entity) => {
                            let values = value.items();
                            if values.len() > 0 {
                                Some(Request::FilterByValues { entity: entity.clone(), values })
                            } else {
                                None
                            }
                        },
                        _ => None,
                    },
                }
            },
            ConstraintRule::Composite { label, columns } => Some(
                Request::IsUniqueOn(column_values(columns, instance)),
            ),
        }
    }

    /// Tells whether the rule has what it needs to decide.
    pub fn is_settled(&self, instance: &Instance, answer: Option<&Answer>) -> (yes: bool)
        ensures
            yes == settled(self@, instance@, answer.deep_view()),
    {
        match self.request(instance) {
            None => true,
            Some(request) => match answer {
                None => false,
                Some(a) => match request {
                    Request::IsUniqueOn(_) => match a {
                        Answer::Unique(_) => true,
                        _ => false,
                    },
                    Request::FilterByValues { .. } => match a {
                        Answer::Matched(_) => true,
                        _ => false,
                    },
                    Request::CheckFormat { .. } => match a {
                        Answer::Accepted => true,
                        Answer::Rejected(_) => true,
                        _ => false,
                    },
                    Request::Validate { .. } => match a {
                        Answer::Accepted => true,
                        Answer::Rejected(_) => true,
                        _ => false,
                    },
                },
            },
        }
    }

    /// The failure that the rule records for an instance, given the answer
    /// to its question.
    pub fn judge(&self, instance: &Instance, answer: Option<&Answer>) -> (failure: Option<Failure>)
        ensures
            failure.deep_view() == failure_of(self@, instance@, answer.deep_view()),
    {
        match self {
            ConstraintRule::Field { field, name, kind } => {
                match instance.get(*field) {
                    None => None,
                    Some(value) => match verdict_of(kind, value, answer) {
                        Some(message) => Some(Failure { field: name.clone(), message }),
                        None => None,
                    },
                }
            },
            ConstraintRule::Composite { label, columns } => {
                match answer {
                    Some(Answer::Unique(false)) => Some(
                        Failure {
                            field: label.clone(),
                            message: String::from_str("the composite values should be unique"),
                        },
                    ),
                    _ => None,
                }
            },
        }
    }
}

/// The answer given to the rule at position `i`, if one was given.
pub open spec fn answer_at(answers: Seq<Option<AnswerModel>>, i: int) -> Option<AnswerModel> {
    if 0 <= i < answers.len() {
        answers[i]
    } else {
        None
    }
}

/// What the rule at a position contributes to the failures: its failure,
/// if it records one.
pub open spec fn each_failure(values: Seq<ValueModel>, answers: Seq<Option<AnswerModel>>) -> spec_fn(
    int,
    RuleModel,
) -> Seq<FailureModel> {
    |i: int, rule: RuleModel|
        match failure_of(rule, values, answer_at(answers, i)) {
            Some(failure) => seq![failure],
            None => Seq::empty(),
        }
}

/// The failures that the rules record for an instance, in the order of the
/// rules. The answer to the rule at position `i` stands at position `i`.
pub open spec fn failures_of(
    rules: Seq<RuleModel>,
    values: Seq<ValueModel>,
    answers: Seq<Option<AnswerModel>>,
) -> Seq<FailureModel> {
    gather(rules, each_failure(values, answers))
}

/// The rule at position `i` has what it needs to decide.
pub open spec fn settled_at(
    rules: Seq<RuleModel>,
    values: Seq<ValueModel>,
    answers: Seq<Option<AnswerModel>>,
    i: int,
) -> bool {
    settled(rules[i], values, answer_at(answers, i))
}

/// Every rule has what it needs to decide.
pub open spec fn all_settled(
    rules: Seq<RuleModel>,
    values: Seq<ValueModel>,
    answers: Seq<Option<AnswerModel>>,
) -> bool {
    forall|i: int| 0 <= i < rules.len() ==> settled_at(rules, values, answers, i)
}

/// The question of each rule, at the rule's position.
pub open spec fn requests_of(rules: Seq<RuleModel>, values: Seq<ValueModel>) -> Seq<
    Option<RequestModel>,
> {
    Seq::new(rules.len(), |i: int| request_of(rules[i], values))
}

/// How many of the rules record a failure.
pub open spec fn violations(
    rules: Seq<RuleModel>,
    values: Seq<ValueModel>,
    answers: Seq<Option<AnswerModel>>,
) -> nat
    decreases rules.len(),
{
    if rules.len() == 0 {
        0
    } else {
        violations(rules.drop_last(), values, answers) + if failure_of(
            rules.last(),
            values,
            answer_at(answers, rules.len() - 1),
        ) is Some {
            1nat
        } else {
            0nat
        }
    }
}

/// As many failures are recorded as rules are violated: each violated rule
/// records exactly one, and a rule that is met records none.
pub proof fn lemma_one_failure_for_each_violation(
    rules: Seq<RuleModel>,
    values: Seq<ValueModel>,
    answers: Seq<Option<AnswerModel>>,
)
    ensures
        failures_of(rules, values, answers).len() == violations(rules, values, answers),
    decreases rules.len(),
{
    if rules.len() > 0 {
        lemma_one_failure_for_each_violation(rules.drop_last(), values, answers);
    }
}

/// Failures come in the order of the rules: the failures of the first `k`
/// rules are the first failures of them all, whatever the answers to the
/// later rules are and whenever they arrived.
pub proof fn lemma_failures_in_rule_order(
    rules: Seq<RuleModel>,
    values: Seq<ValueModel>,
    answers: Seq<Option<AnswerModel>>,
    k: int,
)
    requires
        0 <= k <= rules.len(),
    ensures
        failures_of(rules.take(k), values, answers).is_prefix_of(
            failures_of(rules, values, answers),
        ),
    decreases rules.len() - k,
{
    if k == rules.len() {
        assert(rules.take(k) =~= rules);
    } else {
        lemma_failures_in_rule_order(rules, values, answers, k + 1);
        lemma_gather_step(rules, each_failure(values, answers), k);
    }
}

/// A rule that asks nothing decides by itself: whatever stands at its
/// position among the answers, it records the same.
pub proof fn lemma_unasked_answer_is_ignored(
    rule: RuleModel,
    values: Seq<ValueModel>,
    a: Option<AnswerModel>,
    b: Option<AnswerModel>,
)
    requires
        request_of(rule, values) is None,
    ensures
        failure_of(rule, values, a) == failure_of(rule, values, b),
{
}

/// The failures depend on the answers to the questions that were asked and
/// on nothing else: not on the order in which the answers arrived, nor on
/// what stands at the position of a rule that asked nothing.
pub proof fn lemma_failures_depend_on_asked_answers(
    rules: Seq<RuleModel>,
    values: Seq<ValueModel>,
    a: Seq<Option<AnswerModel>>,
    b: Seq<Option<AnswerModel>>,
)
    requires
        forall|i: int|
            0 <= i < rules.len() && request_of(#[trigger] rules[i], values) is Some ==> answer_at(
                a,
                i,
            ) == answer_at(b, i),
    ensures
        failures_of(rules, values, a) == failures_of(rules, values, b),
    decreases rules.len(),
{
    if rules.len() > 0 {
        let head = rules.drop_last();
        let n = rules.len() - 1;
        assert forall|i: int|
            0 <= i < head.len() && request_of(#[trigger] head[i], values) is Some implies answer_at(
            a,
            i,
        ) == answer_at(b, i) by {
            assert(head[i] == rules[i]);
        }
        lemma_failures_depend_on_asked_answers(head, values, a, b);
        if request_of(rules[n], values) is None {
            lemma_unasked_answer_is_ignored(rules[n], values, answer_at(a, n), answer_at(b, n));
        }
    }
}

/// A uniqueness rule on a text: an empty text asks nothing of the storage
/// and records nothing, whatever is answered; a text that is not empty
/// asks whether it is unique in the field's column, and where the storage
/// says it is not, the failure is recorded under the field's name.
pub proof fn lemma_uniqueness_of_text(
    field: int,
    name: Seq<char>,
    text: Seq<char>,
    values: Seq<ValueModel>,
    answer: Option<AnswerModel>,
)
    requires
        value_at(values, field) == Some(ValueModel::Text(text)),
    ensures
        text.len() == 0 ==> request_of(
            RuleModel::Field { field, name, kind: RuleKindModel::Uniqueness },
            values,
        ) is None && failure_of(
            RuleModel::Field { field, name, kind: RuleKindModel::Uniqueness },
            values,
            answer,
        ) is None,
        text.len() > 0 ==> request_of(
            RuleModel::Field { field, name, kind: RuleKindModel::Uniqueness },
            values,
        ) == Some(RequestModel::IsUniqueOn(seq![ColumnValueModel { name, value: text }])),
        text.len() > 0 && answer == Some(AnswerModel::Unique(false)) ==> failure_of(
            RuleModel::Field { field, name, kind: RuleKindModel::Uniqueness },
            values,
            answer,
        ) == Some(
            FailureModel { field: name, message: "the value `"@ + text + "` is not unique"@ },
        ),
        text.len() > 0 && answer == Some(AnswerModel::Unique(true)) ==> failure_of(
            RuleModel::Field { field, name, kind: RuleKindModel::Uniqueness },
            values,
            answer,
        ) is None,
{
}

/// A referential-integrity rule on a value that holds `n > 0` items: where
/// the storage finds another number of rows than `n`, a collection records
/// the plural message and any other value the singular one; where it finds
/// `n`, nothing is recorded. A value that holds nothing asks nothing.
pub proof fn lemma_referential_integrity(
    field: int,
    name: Seq<char>,
    entity: Seq<char>,
    values: Seq<ValueModel>,
    found: nat,
)
    requires
        value_at(values, field) is Some,
    ensures
        ({
            let value = values[field];
            let rule = RuleModel::Field {
                field,
                name,
                kind: RuleKindModel::ReferentialIntegrity(entity),
            };
            let outcome = failure_of(rule, values, Some(AnswerModel::Matched(found)));
            &&& value.items().len() == 0 ==> request_of(rule, values) is None && outcome is None
            &&& value.items().len() > 0 ==> request_of(rule, values) == Some(
                RequestModel::FilterByValues { entity, values: value.items() },
            )
            &&& value.items().len() > 0 && found == value.items().len() ==> outcome is None
            &&& value.items().len() > 0 && found != value.items().len() && value.is_collection()
                ==> outcome == Some(
                FailureModel { field: name, message: "there are nonexistent values"@ },
            )
            &&& value.items().len() > 0 && found != value.items().len() && !value.is_collection()
                ==> outcome == Some(
                FailureModel { field: name, message: "it is a nonexistent value"@ },
            )
        }),
{
}

/// Why the constraints of an instance could not be checked.
#[derive(Clone, Copy, Debug, PartialEq, Eq, Structural, Hash)]
pub enum CheckError {
    /// The question of the rule at this position has no answer of the kind
    /// that it asks for.
    Unanswered { rule: usize },
}

fn answer_for(answers: &Vec<Option<Answer>>, i: usize) -> (answer: Option<&Answer>)
    ensures
        answer.deep_view() == answer_at(answers.deep_view(), i as int),
{
    if i < answers.len() {
        match &answers[i] {
            Some(a) => Some(a),
            None => None,
        }
    } else {
        None
    }
}

/// The questions of the rules for an instance: one slot for each rule, in
/// the order of the rules, empty where the rule asks nothing.
pub fn requests(rules: &Vec<ConstraintRule>, instance: &Instance) -> (out: Vec<Option<Request>>)
    ensures
        out.deep_view() == requests_of(rules.deep_view(), instance@),
{
    let mut out: Vec<Option<Request>> = Vec::new();
    let mut i: usize = 0;
    assert(out.deep_view() =~= requests_of(rules.deep_view(), instance@).take(0));
    while i < rules.len()
        invariant
            i <= rules.len(),
            out.deep_view() == requests_of(rules.deep_view(), instance@).take(i as int),
        decreases rules.len() - i,
    {
        let request = rules[i].request(instance);
        let ghost before = out;
        let ghost pushed = request;
        out.push(request);
        proof {
            lemma_push_deep_view(before, out, pushed);
        }
        i += 1;
        assert(out.deep_view() =~= requests_of(rules.deep_view(), instance@).take(i as int));
    }
    assert(requests_of(rules.deep_view(), instance@).take(i as int) =~= requests_of(
        rules.deep_view(),
        instance@,
    ));
    out
}

/// The first question at or after position `from`, with the position of
/// the rule that asks it; nothing where no rule from there on asks one.
pub fn next_request(rules: &Vec<ConstraintRule>, instance: &Instance, from: usize) -> (next: Option<
    (usize, Request),
>)
    ensures
        match next {
            Some((i, request)) => {
                &&& from <= i < rules.len()
                &&& request_of(rules.deep_view()[i as int], instance@) == Some(request@)
                &&& forall|j: int|
                    from <= j < i ==> request_of(#[trigger] rules.deep_view()[j], instance@) is None
            },
            None => forall|j: int|
                from <= j < rules.len() ==> request_of(#[trigger] rules.deep_view()[j], instance@)
                    is None,
        },
{
    let mut i: usize = from;
    while i < rules.len()
        invariant
            from <= i,
            forall|j: int|
                from <= j < i && j < rules.len() ==> request_of(
                    #[trigger] rules.deep_view()[j],
                    instance@,
                ) is None,
        decreases rules.len() - i,
    {
        match rules[i].request(instance) {
            Some(request) => {
                return Some((i, request));
            },
            None => {},
        }
        i += 1;
    }
    None
}

/// Checks the constraints of an instance, given the answers to the rules'
/// questions: the answer to the rule at position `i` stands at position
/// `i` of `answers`. Every rule is evaluated and every failure recorded,
/// in the order of the rules. Where a question has no answer of the right
/// kind, nothing is returned but the position of the first such rule.
pub fn evaluate(rules: &Vec<ConstraintRule>, instance: &Instance, answers: &Vec<Option<Answer>>) -> (outcome:
    Result<Vec<Failure>, CheckError>)
    ensures
        match outcome {
            Ok(failures) => {
                &&& all_settled(rules.deep_view(), instance@, answers.deep_view())
                &&& failures.deep_view() == failures_of(
                    rules.deep_view(),
                    instance@,
                    answers.deep_view(),
                )
            },
            Err(CheckError::Unanswered { rule }) => {
                &&& rule < rules.len()
                &&& !settled_at(rules.deep_view(), instance@, answers.deep_view(), rule as int)
                &&& forall|j: int|
                    0 <= j < rule ==> settled_at(
                        rules.deep_view(),
                        instance@,
                        answers.deep_view(),
                        j,
                    )
            },
        },
{
    let ghost model = rules.deep_view();
    let ghost each = each_failure(instance@, answers.deep_view());
    let mut failures: Vec<Failure> = Vec::new();
    let mut i: usize = 0;
    proof {
        lemma_gather_ends(model, each);
        assert(failures.deep_view() =~= Seq::<FailureModel>::empty());
    }
    while i < rules.len()
        invariant
            i <= rules.len(),
            model == rules.deep_view(),
            each == each_failure(instance@, answers.deep_view()),
            forall|j: int| 0 <= j < i ==> settled_at(model, instance@, answers.deep_view(), j),
            failures.deep_view() == gather(model.take(i as int), each),
        decreases rules.len() - i,
    {
        proof {
            lemma_gather_step(model, each, i as int);
        }
        let answer = answer_for(answers, i);
        if !rules[i].is_settled(instance, answer) {
            return Err(CheckError::Unanswered { rule: i });
        }
        match rules[i].judge(instance, answer) {
            Some(failure) => {
                let ghost before = failures;
                let ghost pushed = failure;
                failures.push(failure);
                proof {
                    lemma_push_deep_view(before, failures, pushed);
                    assert(failures.deep_view() =~= gather(model.take(i as int), each) + each(
                        i as int,
                        model[i as int],
                    ));
                }
            },
            None => {
                assert(gather(model.take(i as int), each) + each(i as int, model[i as int])
                    =~= gather(model.take(i as int), each));
            },
        }
        i += 1;
    }
    proof {
        lemma_gather_ends(model, each);
    }
    Ok(failures)
}

} // verus!
