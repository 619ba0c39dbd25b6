use entity_schema::accessor::{AccessorBinding, AccessorKind, Role};
use entity_schema::descriptor::CompiledBehaviorDescriptor;
use entity_schema::evaluation::{Answer, Failure, Request};
use entity_schema::population::PopulationStep;
use entity_schema::rule::{ConstraintRule, RuleKind};
use entity_schema::schema::{Argument, EntitySchema, FieldSchema};
use entity_schema::value::{FieldValue, Instance, Opaque};

fn field(name: &str, declared_type: &str, arguments: Vec<Argument>) -> FieldSchema {
    FieldSchema::declare(name, declared_type, &arguments)
}

fn user() -> CompiledBehaviorDescriptor {
    let fields = vec![
        field(
            "id",
            "i64",
            vec![Argument::flag("primary_key"), Argument::flag("auto_increment"), Argument::flag("readonly")],
        ),
        field("name", "String", vec![Argument::flag("not_null"), Argument::with_value("comment", "User name")]),
        field("status", "String", vec![Argument::with_value("default_value", "Inactive")]),
        field("account", "String", vec![Argument::flag("not_null"), Argument::flag("unique")]),
        field("password", "String", vec![Argument::flag("not_null"), Argument::flag("write_only")]),
        field("roles", "Vec<String>", vec![Argument::flag("snapshot"), Argument::flag("nonempty")]),
        field("tags", "Vec<i64>", vec![Argument::with_value("reference", "Tag")]),
        field("extra", "Map", vec![Argument::flag("reserved")]),
        field("created_at", "DateTime", vec![Argument::flag("readonly")]),
        field("updated_at", "DateTime", vec![]),
        field("version", "u64", vec![]),
    ];
    let schema = EntitySchema::declare(fields, &vec![]).unwrap();
    CompiledBehaviorDescriptor::compile(schema)
}

fn rule(field: usize, name: &str, kind: RuleKind) -> ConstraintRule {
    ConstraintRule::Field { field, name: name.to_string(), kind }
}

fn number(n: i64) -> Opaque {
    Opaque::scalar(&n.to_string(), n == 0)
}

fn stamp() -> FieldValue {
    FieldValue::Opaque(Opaque::scalar("2024-01-01T00:00:00Z", false))
}

fn someone(name: &str, account: &str, roles: &[&str], tags: &[i64]) -> Instance {
    Instance::new(vec![
        FieldValue::Opaque(number(0)),
        FieldValue::Text(name.to_string()),
        FieldValue::Text("Active".to_string()),
        FieldValue::Text(account.to_string()),
        FieldValue::Text(String::new()),
        FieldValue::TextCollection(roles.iter().map(|s| s.to_string()).collect()),
        FieldValue::OpaqueCollection(tags.iter().map(|n| number(*n)).collect()),
        FieldValue::Opaque(Opaque::container("{}", true)),
        stamp(),
        stamp(),
        FieldValue::Opaque(number(1)),
    ])
}

#[test]
fn a_user_entity_compiles_to_its_behaviour() {
    let descriptor = user();
    assert_eq!(descriptor.primary_key_name(), "id");
    assert_eq!(descriptor.primary_key_type(), "i64");
    assert_eq!(descriptor.user_id_type(), "i64");
    assert_eq!(
        descriptor.rules(),
        &vec![
            rule(1, "name", RuleKind::NonNil),
            rule(3, "account", RuleKind::NonNil),
            rule(3, "account", RuleKind::Uniqueness),
            rule(6, "tags", RuleKind::ReferentialIntegrity("Tag".to_string())),
        ]
    );
    assert_eq!(
        descriptor.default_snapshot_query().columns,
        vec!["id".to_string(), "roles".to_string(), "updated_at".to_string(), "version".to_string()]
    );
    assert_eq!(
        descriptor.population_plan(),
        &vec![PopulationStep { target: "Tag".to_string(), fields: vec!["tags".to_string()] }]
    );
    assert_eq!(
        descriptor.accessors(),
        &vec![
            AccessorBinding { role: Role::Name, field: 1, kind: AccessorKind::Text },
            AccessorBinding { role: Role::Status, field: 2, kind: AccessorKind::Text },
            AccessorBinding { role: Role::Extra, field: 7, kind: AccessorKind::OptionalMap },
            AccessorBinding { role: Role::CreatedAt, field: 8, kind: AccessorKind::Timestamp },
            AccessorBinding { role: Role::UpdatedAt, field: 9, kind: AccessorKind::Timestamp },
            AccessorBinding { role: Role::Version, field: 10, kind: AccessorKind::Counter },
        ]
    );
}

#[test]
fn a_user_is_checked_against_the_storage() {
    let descriptor = user();
    let instance = someone("", "root", &[], &[1, 2, 3]);
    assert!(descriptor.admits(&instance));
    assert_eq!(
        descriptor.requests(&instance),
        vec![
            None,
            None,
            Some(Request::IsUniqueOn(vec![entity_schema::evaluation::ColumnValue {
                name: "account".to_string(),
                value: "root".to_string()
            }])),
            Some(Request::FilterByValues {
                entity: "Tag".to_string(),
                values: vec!["1".to_string(), "2".to_string(), "3".to_string()]
            }),
        ]
    );
    let answers = vec![None, None, Some(Answer::Unique(false)), Some(Answer::Matched(2))];
    assert_eq!(
        descriptor.check_constraints(&instance, &answers),
        Ok(vec![
            Failure { field: "name".to_string(), message: "it should be nonempty".to_string() },
            Failure {
                field: "account".to_string(),
                message: "the value `root` is not unique".to_string()
            },
            Failure {
                field: "tags".to_string(),
                message: "there are nonexistent values".to_string()
            },
        ])
    );
}

#[test]
fn answers_to_rules_that_ask_nothing_change_nothing() {
    let descriptor = user();
    let instance = someone("ann", "", &["admin"], &[]);
    let none: Vec<Option<Answer>> = vec![];
    let noise = vec![
        Some(Answer::Unique(false)),
        Some(Answer::Matched(9)),
        Some(Answer::Unique(false)),
        Some(Answer::Matched(0)),
        Some(Answer::Rejected("no".to_string())),
    ];
    let expected =
        vec![Failure { field: "account".to_string(), message: "it should be nonempty".to_string() }];
    assert_eq!(descriptor.check_constraints(&instance, &none), Ok(expected.clone()));
    assert_eq!(descriptor.check_constraints(&instance, &noise), Ok(expected));
    assert_eq!(descriptor.next_request(&instance, 0), None);
}

#[test]
fn an_instance_conforms_when_each_value_has_the_shape_of_its_field() {
    let descriptor = user();
    assert!(descriptor.admits(&someone("a", "b", &["r"], &[1])));
    assert!(!descriptor.admits(&Instance::new(vec![])));
    let mut values = someone("a", "b", &["r"], &[1]).values;
    values[1] = FieldValue::OptionalText(None);
    assert!(!descriptor.admits(&Instance::new(values.clone())));
    values[1] = FieldValue::Text("a".to_string());
    values.push(stamp());
    assert!(!descriptor.admits(&Instance::new(values)));
    assert_eq!(FieldValue::Text(String::new()).shape(), entity_schema::shape::TypeShape::Text);
    assert_eq!(stamp().shape(), entity_schema::shape::TypeShape::Opaque);
}
