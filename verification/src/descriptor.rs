//! The compiled behaviour descriptor of an entity: everything that the
//! synthesizers derive from its schema, built once and read thereafter.

use crate::accessor::{
    bindings_of, find_binding, read_of, synthesize_bindings, user_type, user_type_of, AccessorBinding,
    Role,
};
use crate::evaluation::{
    all_settled, evaluate, failures_of, next_request, request_of, requests, requests_of, settled_at,
    Answer, CheckError, Failure, Request,
};
use crate::population::{
    advance, next_action, plan_of, synthesize_plan, FetchAction, FetchError, FetchEvent,
    FetchMode, ModeModel, PopulationStep,
};
use crate::rule::{rules_of, synthesize_rules, ConstraintRule};
use crate::schema::{primary_key_count, EntitySchema, FieldSchema, SchemaError, SchemaModel};
use crate::snapshot::{
    build_snapshot, entries_of, query_of, snapshot_columns, snapshot_of, synthesize_entries, Query,
    SnapshotEntry, SnapshotItem,
};
use crate::value::{FieldValue, Instance, ValueModel};
use vstd::prelude::*;
use vstd::string::*;

verus! {

/// The behaviour of one entity: its constraint rules, its snapshot
/// builder, its population plan and its accessor bindings. A descriptor is
/// built from a schema and never changes.
#[derive(Debug)]
pub struct CompiledBehaviorDescriptor {
    pub(crate) schema: EntitySchema,
    pub(crate) rules: Vec<ConstraintRule>,
    pub(crate) entries: Vec<SnapshotEntry>,
    pub(crate) plan: Vec<PopulationStep>,
    pub(crate) accessors: Vec<AccessorBinding>,
}

impl DeepView for CompiledBehaviorDescriptor {
    type V = SchemaModel;

    open(crate) spec fn deep_view(&self) -> SchemaModel {
        self.schema@
    }
}

impl View for CompiledBehaviorDescriptor {
    type V = SchemaModel;

    open spec fn view(&self) -> SchemaModel {
        self.deep_view()
    }
}

/// The instance conforms to the schema: it has one value for each field,
/// and each value has the shape of its field.
pub open spec fn conforms(schema: SchemaModel, values: Seq<ValueModel>) -> bool {
    &&& values.len() == schema.fields.len()
    &&& forall|i: int|
        0 <= i < values.len() ==> (#[trigger] values[i]).shape() == schema.fields[i].shape()
}

impl CompiledBehaviorDescriptor {
    #[verifier::type_invariant]
    spec fn built(self) -> bool {
        &&& self.schema@.valid()
        &&& self.rules.deep_view() == rules_of(self.schema@)
        &&& self.entries.deep_view() == entries_of(self.schema@)
        &&& self.plan.deep_view() == plan_of(self.schema@)
        &&& self.accessors.deep_view() == bindings_of(self.schema@)
    }

    /// Compiles the behaviour of an entity from its schema.
    pub fn compile(schema: EntitySchema) -> (descriptor: CompiledBehaviorDescriptor)
        ensures
            descriptor@ == schema@,
            descriptor@.valid(),
    {
        proof {
            use_type_invariant(&schema);
        }
        let rules = synthesize_rules(&schema);
        let entries = synthesize_entries(&schema);
        let plan = synthesize_plan(&schema);
        let accessors = synthesize_bindings(&schema);
        CompiledBehaviorDescriptor { schema, rules, entries, plan, accessors }
    }

    /// Builds the schema of an entity from its fields and uniqueness
    /// groups and compiles its behaviour. This succeeds if and only if
    /// exactly one field carries the primary-key attribute.
    pub fn build(fields: Vec<FieldSchema>, unique_on: Vec<Vec<String>>) -> (descriptor: Result<
        CompiledBehaviorDescriptor,
        SchemaError,
    >)
        ensures
            match descriptor {
                Ok(d) => d@ == (SchemaModel {
                    fields: fields.deep_view(),
                    unique_on: unique_on.deep_view(),
                }) && primary_key_count(fields.deep_view()) == 1,
                Err(SchemaError::MissingPrimaryKey) => primary_key_count(fields.deep_view()) == 0,
                Err(SchemaError::DuplicatePrimaryKey) => primary_key_count(fields.deep_view()) >= 2,
            },
    {
        match EntitySchema::new(fields, unique_on) {
            Ok(schema) => Ok(CompiledBehaviorDescriptor::compile(schema)),
            Err(error) => Err(error),
        }
    }

    /// The schema that the descriptor was compiled from.
    pub fn schema(&self) -> (schema: &EntitySchema)
        ensures
            schema@ == self@,
            self@.valid(),
    {
        proof {
            use_type_invariant(self);
        }
        &self.schema
    }

    /// The constraint rules, in evaluation order.
    pub fn rules(&self) -> (rules: &Vec<ConstraintRule>)
        ensures
            rules.deep_view() == rules_of(self@),
    {
        proof {
            use_type_invariant(self);
        }
        &self.rules
    }

    /// The entries of the snapshot builder: the primary key, then the
    /// snapshot fields.
    pub fn snapshot_entries(&self) -> (entries: &Vec<SnapshotEntry>)
        ensures
            entries.deep_view() == entries_of(self@),
    {
        proof {
            use_type_invariant(self);
        }
        &self.entries
    }

    /// The population plan: one step for each entity referred to.
    pub fn population_plan(&self) -> (plan: &Vec<PopulationStep>)
        ensures
            plan.deep_view() == plan_of(self@),
    {
        proof {
            use_type_invariant(self);
        }
        &self.plan
    }

    /// The accessor bindings, in declaration order.
    pub fn accessors(&self) -> (accessors: &Vec<AccessorBinding>)
        ensures
            accessors.deep_view() == bindings_of(self@),
    {
        proof {
            use_type_invariant(self);
        }
        &self.accessors
    }

    /// Tells whether an instance conforms to the schema of the entity.
    pub fn admits(&self, instance: &Instance) -> (yes: bool)
        ensures
            yes == conforms(self@, instance@),
    {
        let fields = self.schema().fields();
        if instance.values.len() != fields.len() {
            return false;
        }
        let mut i: usize = 0;
        while i < fields.len()
            invariant
                i <= fields.len(),
                instance.values.len() == fields.len(),
                fields.deep_view() == self@.fields,
                forall|k: int| 0 <= k < i ==> (#[trigger] instance@[k]).shape() == self@.fields[k].shape(),
            decreases fields.len() - i,
        {
            if instance.values[i].shape() != fields[i].shape() {
                assert(instance@[i as int].shape() != self@.fields[i as int].shape());
                return false;
            }
            i += 1;
        }
        true
    }

    /// The name of the primary key.
    pub fn primary_key_name(&self) -> (name: &str)
        ensures
            self@.valid(),
            name@ == self@.fields[self@.primary_key()].name,
    {
        self.schema().primary_key_field().name()
    }

    /// The declared type of the primary key.
    pub fn primary_key_type(&self) -> (name: &str)
        ensures
            self@.valid(),
            name@ == self@.fields[self@.primary_key()].declared_type,
    {
        self.schema().primary_key_field().declared_type()
    }

    /// The type of the identifiers that name users: the type that the
    /// owner and maintainer fields declare, or the type of the primary key
    /// where there is no such field.
    pub fn user_id_type(&self) -> (name: String)
        ensures
            name@ == user_type_of(self@),
    {
        user_type(self.schema())
    }

    /// The questions that the rules ask for an instance: one slot for each
    /// rule, empty where the rule asks nothing. The questions do not
    /// depend on one another and may be put in any order, or at once.
    pub fn requests(&self, instance: &Instance) -> (out: Vec<Option<Request>>)
        ensures
            out.deep_view() == requests_of(rules_of(self@), instance@),
    {
        requests(self.rules(), instance)
    }

    /// The first question at or after position `from`, with the position
    /// of the rule that asks it.
    pub fn next_request(&self, instance: &Instance, from: usize) -> (next: Option<(usize, Request)>)
        ensures
            match next {
                Some((i, request)) => {
                    &&& from <= i < rules_of(self@).len()
                    &&& request_of(rules_of(self@)[i as int], instance@) == Some(request@)
                    &&& forall|j: int|
                        from <= j < i ==> request_of(#[trigger] rules_of(self@)[j], instance@)
                            is None
                },
                None => forall|j: int|
                    from <= j < rules_of(self@).len() ==> request_of(
                        #[trigger] rules_of(self@)[j],
                        instance@,
                    ) is None,
            },
    {
        next_request(self.rules(), instance, from)
    }

    /// Checks the constraints of an instance, given the answers to the
    /// rules' questions, each at the position of its rule. All rules run
    /// and all failures are returned, in the order of the rules. Where a
    /// question has no answer of the right kind the check is abandoned,
    /// and the position of the first such rule is returned.
    pub fn check_constraints(&self, instance: &Instance, answers: &Vec<Option<Answer>>) -> (outcome:
        Result<Vec<Failure>, CheckError>)
        ensures
            match outcome {
                Ok(failures) => {
                    &&& all_settled(rules_of(self@), instance@, answers.deep_view())
                    &&& failures.deep_view() == failures_of(
                        rules_of(self@),
                        instance@,
                        answers.deep_view(),
                    )
                },
                Err(CheckError::Unanswered { rule }) => {
                    &&& rule < rules_of(self@).len()
                    &&& !settled_at(rules_of(self@), instance@, answers.deep_view(), rule as int)
                    &&& forall|j: int|
                        0 <= j < rule ==> settled_at(
                            rules_of(self@),
                            instance@,
                            answers.deep_view(),
                            j,
                        )
                },
            },
    {
        evaluate(self.rules(), instance, answers)
    }

    /// The snapshot of an instance.
    pub fn snapshot(&self, instance: &Instance) -> (items: Vec<SnapshotItem>)
        ensures
            items.deep_view() == snapshot_of(entries_of(self@), instance@),
    {
        build_snapshot(self.snapshot_entries(), instance)
    }

    /// The query that reads the primary key and the snapshot fields, and no
    /// other column.
    pub fn default_snapshot_query(&self) -> (query: Query)
        ensures
            query@ == snapshot_columns(self@),
    {
        query_of(self.snapshot_entries())
    }

    /// Decides the next piece of work of a fetch of the rows that match a
    /// query, after `done` pieces.
    pub fn fetch(&self, translate: bool, done: usize, event: FetchEvent) -> (action: FetchAction)
        ensures
            action@ == next_action(plan_of(self@), ModeModel::Many { translate }, done as int),
    {
        let mode = FetchMode::Many { translate };
        match advance(self.population_plan(), &mode, done, event) {
            Ok(action) => action,
            Err(_) => FetchAction::Return,
        }
    }

    /// Decides the next piece of work of a fetch of the row with the given
    /// identifier, after `done` pieces. Where the row was looked for and
    /// none was found, the fetch ends with the not-found error, which
    /// carries the identifier.
    pub fn fetch_by_id(&self, id: &str, done: usize, event: FetchEvent) -> (next: Result<
        FetchAction,
        FetchError,
    >)
        ensures
            match next {
                Ok(action) => !(done == 1 && event == FetchEvent::Found(0)) && action@
                    == next_action(plan_of(self@), ModeModel::One { id: id@ }, done as int),
                Err(FetchError::NotFound { id: missing }) => done == 1 && event
                    == FetchEvent::Found(0) && missing@ == id@,
            },
    {
        let mode = FetchMode::One { id: String::from_str(id) };
        advance(self.population_plan(), &mode, done, event)
    }

    /// What the accessor of a role hands out for an instance.
    pub fn read<'a>(&self, role: Role, instance: &'a Instance) -> (value: Option<&'a FieldValue>)
        ensures
            value.deep_view() == read_of(bindings_of(self@), role, instance@),
    {
        match find_binding(self.accessors(), role) {
            Some(binding) => binding.read(instance),
            None => None,
        }
    }
}

} // verus!
