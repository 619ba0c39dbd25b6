//! The population synthesizer: reference fields grouped by the entity they
//! refer to, and the order of work of a fetch that resolves them.

use crate::schema::{AttributeKind, AttributeModel, EntitySchema, FieldModel, FieldSchema, SchemaModel};
use crate::seqs::{gather, lemma_gather_ends, lemma_gather_step, lemma_push_deep_view, lemma_set_deep_view};
use crate::text::text_eq;
use vstd::prelude::*;
use vstd::string::*;

verus! {

/// One reference of an entity: the entity referred to, and the name of the
/// field that refers to it.
pub struct ReferenceModel {
    pub target: Seq<char>,
    pub field: Seq<char>,
}

/// One step of a population plan: the rows of `target` that the named
/// reference fields refer to are fetched and merged into the result.
#[derive(Clone, Debug, PartialEq, Eq)]
pub struct PopulationStep {
    pub target: String,
    pub fields: Vec<String>,
}

/// The mathematical value of a [`PopulationStep`].
pub struct StepModel {
    pub target: Seq<char>,
    pub fields: Seq<Seq<char>>,
}

impl DeepView for PopulationStep {
    type V = StepModel;

    open spec fn deep_view(&self) -> StepModel {
        StepModel { target: self.target@, fields: self.fields.deep_view() }
    }
}

impl View for PopulationStep {
    type V = StepModel;

    open spec fn view(&self) -> StepModel {
        self.deep_view()
    }
}

/// What one attribute contributes to the references of its field: a
/// reference, if it is a reference attribute that names its target.
pub open spec fn attribute_reference(field: FieldModel) -> spec_fn(int, AttributeModel) -> Seq<
    ReferenceModel,
> {
    |j: int, attribute: AttributeModel|
        match attribute.payload {
            Some(target) if attribute.kind == AttributeKind::Reference => seq![
                ReferenceModel { target, field: field.name },
            ],
            _ => Seq::empty(),
        }
}

/// What one field contributes to the references of an entity.
pub open spec fn each_reference() -> spec_fn(int, FieldModel) -> Seq<ReferenceModel> {
    |i: int, field: FieldModel| gather(field.attributes, attribute_reference(field))
}

/// The references of an entity, in declaration order.
pub open spec fn references_of(fields: Seq<FieldModel>) -> Seq<ReferenceModel> {
    gather(fields, each_reference())
}

/// The position of the step for the given target, if there is one.
pub open spec fn target_position(steps: Seq<StepModel>, target: Seq<char>) -> Option<int>
    decreases steps.len(),
{
    if steps.len() == 0 {
        None
    } else {
        match target_position(steps.drop_last(), target) {
            Some(i) => Some(i),
            None => if steps.last().target == target {
                Some(steps.len() - 1)
            } else {
                None
            },
        }
    }
}

/// The steps with one more reference: it joins the step of its target, or
/// opens a new step at the end where its target has none yet.
pub open spec fn with_reference(steps: Seq<StepModel>, reference: ReferenceModel) -> Seq<StepModel> {
    match target_position(steps, reference.target) {
        Some(i) => steps.update(
            i,
            StepModel { target: reference.target, fields: steps[i].fields.push(reference.field) },
        ),
        None => steps.push(StepModel { target: reference.target, fields: seq![reference.field] }),
    }
}

/// The references grouped by target: one step for each target, in the
/// order in which the targets are first met, each with its reference
/// fields in declaration order.
pub open spec fn grouped(references: Seq<ReferenceModel>) -> Seq<StepModel>
    decreases references.len(),
{
    if references.len() == 0 {
        Seq::empty()
    } else {
        with_reference(grouped(references.drop_last()), references.last())
    }
}

/// The population plan of an entity.
pub open spec fn plan_of(schema: SchemaModel) -> Seq<StepModel> {
    grouped(references_of(schema.fields))
}

/// Some step is for the target.
pub open spec fn has_target(steps: Seq<StepModel>, target: Seq<char>) -> bool {
    exists|i: int| 0 <= i < steps.len() && (#[trigger] steps[i]).target == target
}

/// No two steps are for the same target.
pub open spec fn distinct_targets(steps: Seq<StepModel>) -> bool {
    forall|i: int, j: int|
        0 <= i < j < steps.len() ==> (#[trigger] steps[i]).target != (#[trigger] steps[j]).target
}

/// Where a target is found, it is found at its first step; where it is not
/// found, no step is for it.
pub proof fn lemma_target_position(steps: Seq<StepModel>, target: Seq<char>)
    ensures
        match target_position(steps, target) {
            Some(i) => 0 <= i < steps.len() && steps[i].target == target && forall|j: int|
                0 <= j < i ==> (#[trigger] steps[j]).target != target,
            None => !has_target(steps, target),
        },
    decreases steps.len(),
{
    if steps.len() > 0 {
        let head = steps.drop_last();
        lemma_target_position(head, target);
        match target_position(head, target) {
            Some(i) => {
                assert(head[i] == steps[i]);
                assert forall|j: int| 0 <= j < i implies (#[trigger] steps[j]).target != target by {
                    assert(head[j] == steps[j]);
                }
            },
            None => {
                assert forall|j: int| 0 <= j < steps.len() - 1 implies (#[trigger] steps[j]).target
                    != target by {
                    assert(head[j] == steps[j]);
                }
            },
        }
    }
}

/// A plan has one step for each distinct target of its references: the
/// steps are for different targets, and a target has a step if and only if
/// some reference names it. An entity without references has no step.
pub proof fn lemma_one_step_for_each_target(references: Seq<ReferenceModel>, target: Seq<char>)
    ensures
        distinct_targets(grouped(references)),
        has_target(grouped(references), target) <==> exists|k: int|
            0 <= k < references.len() && (#[trigger] references[k]).target == target,
        references.len() == 0 ==> grouped(references).len() == 0,
    decreases references.len(),
{
    if references.len() > 0 {
        let head = references.drop_last();
        let last = references.last();
        lemma_one_step_for_each_target(head, target);
        let before = grouped(head);
        let after = grouped(references);
        lemma_target_position(before, last.target);
        match target_position(before, last.target) {
            Some(i) => {
                assert forall|a: int, b: int| 0 <= a < b < after.len() implies (
                #[trigger] after[a]).target != (#[trigger] after[b]).target by {
                    assert(after[a].target == before[a].target);
                    assert(after[b].target == before[b].target);
                }
                if has_target(before, target) {
                    let j = choose|j: int|
                        0 <= j < before.len() && (#[trigger] before[j]).target == target;
                    assert(after[j].target == target);
                }
                if has_target(after, target) {
                    let j = choose|j: int|
                        0 <= j < after.len() && (#[trigger] after[j]).target == target;
                    assert(before[j].target == target);
                }
                if target == last.target {
                    assert(before[i].target == target);
                }
            },
            None => {
                assert forall|a: int, b: int| 0 <= a < b < after.len() implies (
                #[trigger] after[a]).target != (#[trigger] after[b]).target by {
                    if b < before.len() {
                        assert(after[a].target == before[a].target);
                        assert(after[b].target == before[b].target);
                    } else {
                        assert(after[a] == before[a]);
                    }
                }
                if has_target(before, target) {
                    let j = choose|j: int|
                        0 <= j < before.len() && (#[trigger] before[j]).target == target;
                    assert(after[j].target == target);
                }
                if has_target(after, target) {
                    let j = choose|j: int|
                        0 <= j < after.len() && (#[trigger] after[j]).target == target;
                    if j < before.len() {
                        assert(before[j].target == target);
                    }
                }
                if target == last.target {
                    assert(after[before.len() as int].target == target);
                }
            },
        }
        if exists|k: int| 0 <= k < head.len() && (#[trigger] head[k]).target == target {
            let k = choose|k: int| 0 <= k < head.len() && (#[trigger] head[k]).target == target;
            assert(references[k].target == target);
        }
        if exists|k: int| 0 <= k < references.len() && (#[trigger] references[k]).target == target {
            let k = choose|k: int|
                0 <= k < references.len() && (#[trigger] references[k]).target == target;
            if k < head.len() {
                assert(head[k].target == target);
            }
        }
    }
}

/// The entities that the references refer to.
pub open spec fn referred(references: Seq<ReferenceModel>) -> Set<Seq<char>> {
    Set::new(
        |target: Seq<char>|
            exists|k: int| 0 <= k < references.len() && (#[trigger] references[k]).target == target,
    )
}

/// The targets of the steps, in order.
pub open spec fn targets_of(steps: Seq<StepModel>) -> Seq<Seq<char>> {
    Seq::new(steps.len(), |i: int| steps[i].target)
}

/// A plan has as many steps as its references have distinct targets: none
/// without references, two for references to two entities, however many
/// fields refer to each.
pub proof fn lemma_as_many_steps_as_targets(references: Seq<ReferenceModel>)
    ensures
        referred(references).finite(),
        grouped(references).len() == referred(references).len(),
{
    let steps = grouped(references);
    let targets = targets_of(steps);
    lemma_one_step_for_each_target(references, Seq::empty());
    assert forall|i: int, j: int| 0 <= i < targets.len() && 0 <= j < targets.len() && i != j implies targets[i]
        != targets[j] by {
        if i < j {
            assert(steps[i].target != steps[j].target);
        } else {
            assert(steps[j].target != steps[i].target);
        }
    }
    assert forall|target: Seq<char>| targets.to_set().contains(target) <==> referred(
        references,
    ).contains(target) by {
        lemma_one_step_for_each_target(references, target);
        if targets.contains(target) {
            let i = choose|i: int| 0 <= i < targets.len() && targets[i] == target;
            assert(steps[i].target == target);
        }
        if has_target(steps, target) {
            let i = choose|i: int| 0 <= i < steps.len() && (#[trigger] steps[i]).target == target;
            assert(targets[i] == target);
        }
    }
    assert(targets.to_set() =~= referred(references));
    targets.unique_seq_to_set();
    vstd::seq_lib::seq_to_set_is_finite(targets);
}

fn find_target(steps: &Vec<PopulationStep>, target: &str) -> (position: Option<usize>)
    ensures
        match position {
            Some(i) => target_position(steps.deep_view(), target@) == Some(i as int) && i
                < steps.len(),
            None => target_position(steps.deep_view(), target@) is None,
        },
{
    let ghost model = steps.deep_view();
    let mut found: Option<usize> = None;
    let mut i: usize = 0;
    while i < steps.len()
        invariant
            i <= steps.len(),
            model == steps.deep_view(),
            match found {
                Some(k) => target_position(model.take(i as int), target@) == Some(k as int) && k
                    < i,
                None => target_position(model.take(i as int), target@) is None,
            },
        decreases steps.len() - i,
    {
        proof {
            assert(model.take(i + 1).drop_last() =~= model.take(i as int));
        }
        if found.is_none() && text_eq(steps[i].target.as_str(), target) {
            found = Some(i);
        }
        i += 1;
    }
    assert(model.take(i as int) =~= model);
    found
}

fn copy_names(names: &Vec<String>) -> (copy: Vec<String>)
    ensures
        copy.deep_view() == names.deep_view(),
{
    let mut copy: Vec<String> = Vec::new();
    let mut i: usize = 0;
    assert(copy.deep_view() =~= names.deep_view().take(0));
    while i < names.len()
        invariant
            i <= names.len(),
            copy.deep_view() == names.deep_view().take(i as int),
        decreases names.len() - i,
    {
        let name = names[i].clone();
        let ghost before = copy;
        let ghost pushed = name;
        copy.push(name);
        proof {
            lemma_push_deep_view(before, copy, pushed);
        }
        i += 1;
        assert(copy.deep_view() =~= names.deep_view().take(i as int));
    }
    assert(names.deep_view().take(i as int) =~= names.deep_view());
    copy
}

fn add_reference(steps: &mut Vec<PopulationStep>, target: &str, field: &str)
    ensures
        final(steps).deep_view() == with_reference(
            old(steps).deep_view(),
            ReferenceModel { target: target@, field: field@ },
        ),
{
    let ghost before = *steps;
    match find_target(steps, target) {
        Some(i) => {
            let mut fields = copy_names(&steps[i].fields);
            let ghost shorter = fields;
            let name = String::from_str(field);
            let ghost pushed = name;
            fields.push(name);
            proof {
                lemma_push_deep_view(shorter, fields, pushed);
            }
            let step = PopulationStep { target: String::from_str(target), fields };
            let ghost written = step;
            steps.set(i, step);
            proof {
                lemma_set_deep_view(before, *steps, i as int, written);
            }
        },
        None => {
            let mut fields: Vec<String> = Vec::new();
            fields.push(String::from_str(field));
            assert(fields.deep_view() =~= seq![field@]);
            let step = PopulationStep { target: String::from_str(target), fields };
            let ghost written = step;
            steps.push(step);
            proof {
                lemma_push_deep_view(before, *steps, written);
            }
        },
    }
}

/// The references grouped with those gathered from a prefix of the list.
proof fn lemma_grouped_step(references: Seq<ReferenceModel>, more: Seq<ReferenceModel>)
    ensures
        more.len() == 0 ==> grouped(references + more) == grouped(references),
        more.len() == 1 ==> grouped(references + more) == with_reference(
            grouped(references),
            more[0],
        ),
{
    if more.len() == 0 {
        assert(references + more =~= references);
    }
    if more.len() == 1 {
        assert((references + more).drop_last() =~= references);
    }
}

fn add_field_references(steps: &mut Vec<PopulationStep>, field: &FieldSchema, Ghost(seen): Ghost<
    Seq<ReferenceModel>,
>)
    requires
        old(steps).deep_view() == grouped(seen),
    ensures
        final(steps).deep_view() == grouped(seen + each_reference()(0, field@)),
{
    let ghost each = attribute_reference(field@);
    let attributes = field.attributes();
    let ghost model = attributes.deep_view();
    let mut j: usize = 0;
    proof {
        lemma_gather_ends(model, each);
        assert(seen + Seq::<ReferenceModel>::empty() =~= seen);
    }
    while j < attributes.len()
        invariant
            j <= attributes.len(),
            model == attributes.deep_view(),
            model == field@.attributes,
            each == attribute_reference(field@),
            steps.deep_view() == grouped(seen + gather(model.take(j as int), each)),
        decreases attributes.len() - j,
    {
        proof {
            lemma_gather_step(model, each, j as int);
            lemma_grouped_step(
                seen + gather(model.take(j as int), each),
                each(j as int, model[j as int]),
            );
            assert(seen + gather(model.take(j + 1), each) =~= (seen + gather(
                model.take(j as int),
                each,
            )) + each(j as int, model[j as int]));
        }
        let attribute = &attributes[j];
        if attribute.kind == AttributeKind::Reference {
            match &attribute.payload {
                Some(target) => {
                    add_reference(steps, target.as_str(), field.name());
                },
                None => {},
            }
        }
        j += 1;
    }
    proof {
        lemma_gather_ends(model, each);
    }
}

/// Synthesizes the population plan of an entity.
pub fn synthesize_plan(schema: &EntitySchema) -> (steps: Vec<PopulationStep>)
    ensures
        steps.deep_view() == plan_of(schema@),
{
    let fields = schema.fields();
    let ghost model = schema@.fields;
    let ghost each = each_reference();
    let mut steps: Vec<PopulationStep> = Vec::new();
    let mut i: usize = 0;
    proof {
        lemma_gather_ends(model, each);
        assert(steps.deep_view() =~= grouped(Seq::<ReferenceModel>::empty()));
    }
    while i < fields.len()
        invariant
            i <= fields.len(),
            model == fields.deep_view(),
            each == each_reference(),
            steps.deep_view() == grouped(gather(model.take(i as int), each)),
        decreases fields.len() - i,
    {
        proof {
            lemma_gather_step(model, each, i as int);
        }
        add_field_references(&mut steps, &fields[i], Ghost(gather(model.take(i as int), each)));
        i += 1;
    }
    proof {
        lemma_gather_ends(model, each);
    }
    steps
}

/// What a fetch is for.
#[derive(Clone, Debug, PartialEq, Eq)]
pub enum FetchMode {
    /// The rows that match a query. Fields are translated if the query
    /// asks for it.
    Many { translate: bool },
    /// The one row with the given identifier. Fields are always
    /// translated.
    One { id: String },
}

/// The mathematical value of a [`FetchMode`].
pub enum ModeModel {
    Many { translate: bool },
    One { id: Seq<char> },
}

impl DeepView for FetchMode {
    type V = ModeModel;

    open spec fn deep_view(&self) -> ModeModel {
        match self {
            FetchMode::Many { translate } => ModeModel::Many { translate: *translate },
            FetchMode::One { id } => ModeModel::One { id: id@ },
        }
    }
}

impl View for FetchMode {
    type V = ModeModel;

    open spec fn view(&self) -> ModeModel {
        self.deep_view()
    }
}

impl ModeModel {
    /// Whether fields are translated.
    pub open spec fn translate(self) -> bool {
        match self {
            ModeModel::Many { translate } => translate,
            ModeModel::One { .. } => true,
        }
    }
}

/// Which columns of an entity a query reads.
#[derive(Clone, Copy, Debug, PartialEq, Eq, Structural, Hash)]
pub enum ColumnScope {
    /// The columns of the entity's default snapshot query: its primary key
    /// and its snapshot fields.
    Snapshot,
    /// All the columns of the entity.
    Full,
}

/// One piece of work of a fetch, done outside this crate.
#[derive(Clone, Debug, PartialEq, Eq)]
pub enum FetchAction {
    /// Fetch the rows that match the query.
    Find,
    /// Fetch the row with the identifier.
    FindById { id: String },
    /// Run the hooks that follow decoding on each row, then translate its
    /// fields if asked.
    Decode { translate: bool },
    /// Fetch the rows of `target` that the reference fields refer to,
    /// reading the columns of `scope`, and merge them into the result.
    Populate { target: String, fields: Vec<String>, scope: ColumnScope, translate: bool },
    /// Hand the result back.
    Return,
}

/// The mathematical value of a [`FetchAction`].
pub enum ActionModel {
    Find,
    FindById { id: Seq<char> },
    Decode { translate: bool },
    Populate { target: Seq<char>, fields: Seq<Seq<char>>, scope: ColumnScope, translate: bool },
    Return,
}

impl DeepView for FetchAction {
    type V = ActionModel;

    open spec fn deep_view(&self) -> ActionModel {
        match self {
            FetchAction::Find => ActionModel::Find,
            FetchAction::FindById { id } => ActionModel::FindById { id: id@ },
            FetchAction::Decode { translate } => ActionModel::Decode { translate: *translate },
            FetchAction::Populate { target, fields, scope, translate } => ActionModel::Populate {
                target: target@,
                fields: fields.deep_view(),
                scope: *scope,
                translate: *translate,
            },
            FetchAction::Return => ActionModel::Return,
        }
    }
}

impl View for FetchAction {
    type V = ActionModel;

    open spec fn view(&self) -> ActionModel {
        self.deep_view()
    }
}

/// What came of the last piece of work.
#[derive(Clone, Copy, Debug, PartialEq, Eq, Structural, Hash)]
pub enum FetchEvent {
    /// Nothing was done yet.
    Started,
    /// The rows were fetched: this many.
    Found(usize),
    /// The work was done.
    Done,
}

/// Why a fetch failed.
#[derive(Clone, Debug, PartialEq, Eq)]
pub enum FetchError {
    /// No row has the identifier asked for.
    NotFound { id: String },
}

/// The mathematical value of a [`FetchError`].
pub enum FetchErrorModel {
    NotFound { id: Seq<char> },
}

impl DeepView for FetchError {
    type V = FetchErrorModel;

    open spec fn deep_view(&self) -> FetchErrorModel {
        match self {
            FetchError::NotFound { id } => FetchErrorModel::NotFound { id: id@ },
        }
    }
}

impl View for FetchError {
    type V = FetchErrorModel;

    open spec fn view(&self) -> FetchErrorModel {
        self.deep_view()
    }
}

impl FetchErrorModel {
    /// The error written as a message.
    pub open spec fn message(self) -> Seq<char> {
        match self {
            FetchErrorModel::NotFound { id } => "404 Not Found: cannot find the model `"@ + id
                + "`"@,
        }
    }
}

impl FetchError {
    /// Writes the error as a message.
    pub fn message(&self) -> (text: String)
        ensures
            text@ == self@.message(),
    {
        match self {
            FetchError::NotFound { id } => {
                let mut text = String::from_str("404 Not Found: cannot find the model `");
                text.append(id.as_str());
                text.append("`");
                text
            },
        }
    }
}

/// The first piece of work of a fetch.
pub open spec fn find_of(mode: ModeModel) -> ActionModel {
    match mode {
        ModeModel::Many { .. } => ActionModel::Find,
        ModeModel::One { id } => ActionModel::FindById { id },
    }
}

/// The join of one step of the plan. Whatever the fetch is for, a join
/// reads the snapshot columns of its target and no other.
pub open spec fn join_of(step: StepModel, mode: ModeModel) -> ActionModel {
    ActionModel::Populate {
        target: step.target,
        fields: step.fields,
        scope: ColumnScope::Snapshot,
        translate: mode.translate(),
    }
}

/// The work of a fetch, in order: the rows are fetched and decoded, then
/// one join for each step of the plan, then the result is handed back.
pub open spec fn actions_of(plan: Seq<StepModel>, mode: ModeModel) -> Seq<ActionModel> {
    seq![find_of(mode), ActionModel::Decode { translate: mode.translate() }] + Seq::new(
        plan.len(),
        |k: int| join_of(plan[k], mode),
    ) + seq![ActionModel::Return]
}

/// The fetch fails here: the row asked for by identifier was looked for
/// and not found.
pub open spec fn not_found(mode: ModeModel, done: int, event: FetchEvent) -> bool {
    mode is One && done == 1 && event == FetchEvent::Found(0)
}

/// The next piece of work after `done` pieces: the next of the list; once
/// the list is through, handing the result back.
pub open spec fn next_action(plan: Seq<StepModel>, mode: ModeModel, done: int) -> ActionModel {
    if 0 <= done < actions_of(plan, mode).len() {
        actions_of(plan, mode)[done]
    } else {
        ActionModel::Return
    }
}

/// A fetch does one join for each step of its plan and no other: without
/// reference fields it fetches, decodes and hands back; otherwise the
/// join of step `k` follows as piece `k + 2`, for the step's target and
/// fields. Every join reads the snapshot columns of its target, in a fetch
/// of many rows as in a fetch of one.
pub proof fn lemma_one_join_for_each_step(plan: Seq<StepModel>, mode: ModeModel, at: int)
    requires
        0 <= at < actions_of(plan, mode).len(),
    ensures
        actions_of(plan, mode).len() == plan.len() + 3,
        at == 0 <==> actions_of(plan, mode)[at] is Find || actions_of(plan, mode)[at] is FindById,
        at == 1 <==> actions_of(plan, mode)[at] is Decode,
        2 <= at < plan.len() + 2 <==> actions_of(plan, mode)[at] is Populate,
        2 <= at < plan.len() + 2 ==> actions_of(plan, mode)[at] == join_of(plan[at - 2], mode),
        at == plan.len() + 2 <==> actions_of(plan, mode)[at] is Return,
        actions_of(plan, mode)[at] is Populate ==> actions_of(plan, mode)[at]->scope
            == ColumnScope::Snapshot,
{
}

impl FetchMode {
    /// Whether fields are translated.
    pub fn translate(&self) -> (yes: bool)
        ensures
            yes == self@.translate(),
    {
        match self {
            FetchMode::Many { translate } => *translate,
            FetchMode::One { .. } => true,
        }
    }
}

/// Decides the next piece of work of a fetch, from the number of pieces
/// done so far and what came of the last. Looking for one row by its
/// identifier and finding none ends the fetch with the not-found error,
/// which carries the identifier; nothing else does.
pub fn advance(plan: &Vec<PopulationStep>, mode: &FetchMode, done: usize, event: FetchEvent) -> (next:
    Result<FetchAction, FetchError>)
    ensures
        match next {
            Ok(action) => !not_found(mode@, done as int, event) && action@ == next_action(
                plan.deep_view(),
                mode@,
                done as int,
            ),
            Err(error) => not_found(mode@, done as int, event) && mode@ == (ModeModel::One {
                id: error@->id,
            }),
        },
{
    if done == 1 {
        match (mode, event) {
            (FetchMode::One { id }, FetchEvent::Found(0)) => {
                return Err(FetchError::NotFound { id: id.clone() });
            },
            _ => {},
        }
    }
    assert(actions_of(plan.deep_view(), mode@).len() == plan.len() + 3);
    if done == 0 {
        match mode {
            FetchMode::Many { .. } => Ok(FetchAction::Find),
            FetchMode::One { id } => Ok(FetchAction::FindById { id: id.clone() }),
        }
    } else if done == 1 {
        Ok(FetchAction::Decode { translate: mode.translate() })
    } else if done - 2 < plan.len() {
        let step = &plan[done - 2];
        Ok(
            FetchAction::Populate {
                target: step.target.clone(),
                fields: copy_names(&step.fields),
                scope: ColumnScope::Snapshot,
                translate: mode.translate(),
            },
        )
    } else {
        Ok(FetchAction::Return)
    }
}

} // verus!
