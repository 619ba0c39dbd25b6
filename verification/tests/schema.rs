use entity_schema::descriptor::CompiledBehaviorDescriptor;
use entity_schema::rule::{
    find_field, synthesize_composite, synthesize_rule, Column, ConstraintRule, RuleKind, ValidatorPath,
};
use entity_schema::schema::{
    parse_group, Argument, Attribute, AttributeKind, EntitySchema, FieldSchema, SchemaError,
};
use entity_schema::shape::TypeShape;

fn key() -> FieldSchema {
    FieldSchema::new("id", None, "Uuid", vec![Attribute::flag(AttributeKind::PrimaryKey)])
}

fn plain(name: &str, declared_type: &str) -> FieldSchema {
    FieldSchema::new(name, None, declared_type, vec![])
}

fn tagged(name: &str, declared_type: &str, attributes: Vec<Attribute>) -> FieldSchema {
    FieldSchema::new(name, None, declared_type, attributes)
}

fn field_rule(field: usize, name: &str, kind: RuleKind) -> ConstraintRule {
    ConstraintRule::Field { field, name: name.to_string(), kind }
}

#[test]
fn attribute_kinds_are_read_from_keys() {
    assert_eq!(AttributeKind::from_key("primary_key"), Some(AttributeKind::PrimaryKey));
    assert_eq!(AttributeKind::from_key("auto_increment"), Some(AttributeKind::AutoIncrement));
    assert_eq!(AttributeKind::from_key("unique"), Some(AttributeKind::Unique));
    assert_eq!(AttributeKind::from_key("not_null"), Some(AttributeKind::NotNull));
    assert_eq!(AttributeKind::from_key("nonempty"), Some(AttributeKind::Nonempty));
    assert_eq!(AttributeKind::from_key("reference"), Some(AttributeKind::Reference));
    assert_eq!(AttributeKind::from_key("snapshot"), Some(AttributeKind::Snapshot));
    assert_eq!(AttributeKind::from_key("length"), Some(AttributeKind::Length));
    assert_eq!(AttributeKind::from_key("max_length"), Some(AttributeKind::MaxLength));
    assert_eq!(AttributeKind::from_key("min_length"), Some(AttributeKind::MinLength));
    assert_eq!(AttributeKind::from_key("max_items"), Some(AttributeKind::MaxItems));
    assert_eq!(AttributeKind::from_key("min_items"), Some(AttributeKind::MinItems));
    assert_eq!(AttributeKind::from_key("unique_items"), Some(AttributeKind::UniqueItems));
    assert_eq!(AttributeKind::from_key("format"), Some(AttributeKind::Format));
    assert_eq!(AttributeKind::from_key("validator"), Some(AttributeKind::Validator));
    assert_eq!(AttributeKind::from_key("write_only"), Some(AttributeKind::WriteOnly));
    assert_eq!(AttributeKind::from_key("comment"), None);
    assert_eq!(AttributeKind::from_key("alias"), None);
    assert_eq!(AttributeKind::from_key(""), None);
}

#[test]
fn a_field_keeps_what_it_was_declared_with() {
    let field = FieldSchema::new(
        "title",
        Some("name"),
        "Option<String>",
        vec![Attribute::with_payload(AttributeKind::MaxLength, "20")],
    );
    assert_eq!(field.name(), "title");
    assert_eq!(field.alias(), Some("name"));
    assert_eq!(field.role_name(), "name");
    assert_eq!(field.declared_type(), "Option<String>");
    assert_eq!(field.shape(), TypeShape::OptionalText);
    assert_eq!(
        field.attributes(),
        &vec![Attribute { kind: AttributeKind::MaxLength, payload: Some("20".to_string()) }]
    );
    assert!(field.has(AttributeKind::MaxLength));
    assert!(!field.has(AttributeKind::Unique));
    assert_eq!(plain("title", "String").role_name(), "title");
}

#[test]
fn a_field_is_declared_from_arguments() {
    let arguments = vec![
        Argument::flag("not_null"),
        Argument::with_value("alias", "first"),
        Argument::with_value("comment", "ignored"),
        Argument::with_value("max_length", "8"),
        Argument::with_value("alias", "name"),
    ];
    let field = FieldSchema::declare("title", "String", &arguments);
    assert_eq!(field.name(), "title");
    assert_eq!(field.alias(), Some("name"));
    assert_eq!(field.shape(), TypeShape::Text);
    assert_eq!(
        field.attributes(),
        &vec![
            Attribute { kind: AttributeKind::NotNull, payload: None },
            Attribute { kind: AttributeKind::MaxLength, payload: Some("8".to_string()) },
        ]
    );
    let bare = FieldSchema::declare("x", "i64", &vec![Argument::flag("alias")]);
    assert_eq!(bare.alias(), None);
}

#[test]
fn a_schema_needs_exactly_one_primary_key() {
    let none = EntitySchema::new(vec![plain("a", "String"), plain("b", "i64")], vec![]);
    assert_eq!(none.err(), Some(SchemaError::MissingPrimaryKey));
    let empty = EntitySchema::new(vec![], vec![]);
    assert_eq!(empty.err(), Some(SchemaError::MissingPrimaryKey));
    let two = EntitySchema::new(
        vec![key(), plain("a", "String"), tagged("b", "i64", vec![Attribute::flag(AttributeKind::PrimaryKey)])],
        vec![],
    );
    assert_eq!(two.err(), Some(SchemaError::DuplicatePrimaryKey));
    let one = EntitySchema::new(vec![plain("a", "String"), key()], vec![]).unwrap();
    assert_eq!(one.primary_key(), 1);
    assert_eq!(one.primary_key_field().name(), "id");
    assert_eq!(one.fields().len(), 2);
    assert!(one.unique_on().is_empty());
}

#[test]
fn schema_errors_say_what_is_wrong() {
    assert_eq!(SchemaError::MissingPrimaryKey.message(), "the entity has no primary key");
    assert_eq!(
        SchemaError::DuplicatePrimaryKey.message(),
        "the entity has more than one primary key"
    );
}

#[test]
fn a_repeated_tag_on_one_field_is_one_primary_key() {
    let twice = tagged(
        "id",
        "i64",
        vec![Attribute::flag(AttributeKind::PrimaryKey), Attribute::flag(AttributeKind::PrimaryKey)],
    );
    let schema = EntitySchema::new(vec![twice], vec![]).unwrap();
    assert_eq!(schema.primary_key(), 0);
}

#[test]
fn a_descriptor_is_not_built_without_its_primary_key() {
    let none = CompiledBehaviorDescriptor::build(vec![plain("a", "String")], vec![]);
    assert_eq!(none.err(), Some(SchemaError::MissingPrimaryKey));
    let two = CompiledBehaviorDescriptor::build(vec![key(), key()], vec![]);
    assert_eq!(two.err(), Some(SchemaError::DuplicatePrimaryKey));
    let three = CompiledBehaviorDescriptor::build(vec![key(), key(), key()], vec![]);
    assert_eq!(three.err(), Some(SchemaError::DuplicatePrimaryKey));
    let one = CompiledBehaviorDescriptor::build(vec![key(), plain("a", "String")], vec![]).unwrap();
    assert_eq!(one.primary_key_name(), "id");
    assert_eq!(one.primary_key_type(), "Uuid");
    assert_eq!(one.schema().primary_key(), 0);
}

#[test]
fn group_payloads_list_field_names() {
    assert_eq!(parse_group("(a, b)"), vec!["a".to_string(), "b".to_string()]);
    assert_eq!(parse_group("a,b,c"), vec!["a".to_string(), "b".to_string(), "c".to_string()]);
    assert_eq!(parse_group("((  first ,second  ))"), vec!["first".to_string(), "second".to_string()]);
    assert_eq!(parse_group("single"), vec!["single".to_string()]);
    assert_eq!(parse_group(""), vec![String::new()]);
    assert_eq!(parse_group("()"), vec![String::new()]);
    assert_eq!(parse_group("(a,,b)"), vec!["a".to_string(), String::new(), "b".to_string()]);
    assert_eq!(parse_group("(a,)"), vec!["a".to_string(), String::new()]);
    assert_eq!(parse_group("a(b),c"), vec!["a(b)".to_string(), "c".to_string()]);
}

#[test]
fn group_payloads_are_read_as_the_standard_calls_read_them() {
    for payload in ["(a, b)", " (a) ", "(( x ,y ),z)", ",", "(,)", "a , b", "(é, ü)", "(a\t,\nb)"] {
        let expected: Vec<String> = payload
            .trim_start_matches('(')
            .trim_end_matches(')')
            .split(',')
            .map(|s| s.trim().to_string())
            .collect();
        assert_eq!(parse_group(payload), expected);
    }
}

#[test]
fn an_entity_is_declared_from_arguments() {
    let arguments = vec![
        Argument::with_value("unique_on", "(tenant, email)"),
        Argument::flag("unique_on"),
        Argument::with_value("table", "users"),
        Argument::with_value("unique_on", "code"),
    ];
    let schema = EntitySchema::declare(vec![key()], &arguments).unwrap();
    assert_eq!(
        schema.unique_on(),
        &vec![vec!["tenant".to_string(), "email".to_string()], vec!["code".to_string()]]
    );
    let refused = EntitySchema::declare(vec![], &arguments);
    assert_eq!(refused.err(), Some(SchemaError::MissingPrimaryKey));
}

#[test]
fn each_attribute_gives_the_rule_of_its_shape() {
    let text = plain("t", "String");
    let optional_text = plain("t", "Option<String>");
    let id = plain("t", "Uuid");
    let optional_id = plain("t", "Option<Uuid>");
    let ids = plain("t", "Vec<Uuid>");
    let texts = plain("t", "Vec<String>");
    let numbers = plain("t", "Vec<i64>");
    let map = plain("t", "Map");
    let number = plain("t", "i64");
    let flag = Attribute::flag;
    let with = Attribute::with_payload;

    for field in [&text, &optional_text, &id, &optional_id, &ids, &texts, &numbers, &map, &number] {
        assert_eq!(synthesize_rule(field, &flag(AttributeKind::Unique)), Some(RuleKind::Uniqueness));
        assert_eq!(
            synthesize_rule(field, &with(AttributeKind::Reference, "Tag")),
            Some(RuleKind::ReferentialIntegrity("Tag".to_string()))
        );
        assert_eq!(synthesize_rule(field, &flag(AttributeKind::Reference)), None);
        assert_eq!(synthesize_rule(field, &flag(AttributeKind::Snapshot)), None);
        assert_eq!(synthesize_rule(field, &flag(AttributeKind::PrimaryKey)), None);
        assert_eq!(synthesize_rule(field, &flag(AttributeKind::AutoIncrement)), None);
        assert_eq!(synthesize_rule(field, &flag(AttributeKind::WriteOnly)), None);
    }

    assert_eq!(synthesize_rule(&text, &flag(AttributeKind::NotNull)), Some(RuleKind::NonNil));
    assert_eq!(synthesize_rule(&id, &flag(AttributeKind::NotNull)), Some(RuleKind::NonNil));
    for field in [&optional_text, &optional_id, &ids, &texts, &numbers, &map, &number] {
        assert_eq!(synthesize_rule(field, &flag(AttributeKind::NotNull)), None);
    }

    assert_eq!(synthesize_rule(&text, &flag(AttributeKind::Nonempty)), Some(RuleKind::Nonempty));
    assert_eq!(synthesize_rule(&numbers, &flag(AttributeKind::Nonempty)), Some(RuleKind::Nonempty));
    assert_eq!(synthesize_rule(&map, &flag(AttributeKind::Nonempty)), Some(RuleKind::Nonempty));
    for field in [&optional_text, &id, &optional_id, &ids, &texts, &number] {
        assert_eq!(synthesize_rule(field, &flag(AttributeKind::Nonempty)), None);
    }

    for field in [&text, &optional_text] {
        assert_eq!(
            synthesize_rule(field, &with(AttributeKind::Length, "6")),
            Some(RuleKind::LengthExact(6))
        );
        assert_eq!(
            synthesize_rule(field, &with(AttributeKind::MaxLength, "20")),
            Some(RuleKind::LengthMax(20))
        );
        assert_eq!(
            synthesize_rule(field, &with(AttributeKind::MinLength, "2")),
            Some(RuleKind::LengthMin(2))
        );
        assert_eq!(
            synthesize_rule(field, &with(AttributeKind::MaxLength, "many")),
            Some(RuleKind::LengthMax(0))
        );
        assert_eq!(synthesize_rule(field, &flag(AttributeKind::Length)), Some(RuleKind::LengthExact(0)));
    }
    for field in [&id, &optional_id, &ids, &texts, &numbers, &map, &number] {
        assert_eq!(synthesize_rule(field, &with(AttributeKind::Length, "6")), None);
        assert_eq!(synthesize_rule(field, &with(AttributeKind::MaxLength, "6")), None);
        assert_eq!(synthesize_rule(field, &with(AttributeKind::MinLength, "6")), None);
    }

    for field in [&ids, &texts, &numbers] {
        assert_eq!(
            synthesize_rule(field, &with(AttributeKind::MaxItems, "3")),
            Some(RuleKind::ItemCountMax(3))
        );
        assert_eq!(
            synthesize_rule(field, &with(AttributeKind::MinItems, "1")),
            Some(RuleKind::ItemCountMin(1))
        );
        assert_eq!(synthesize_rule(field, &with(AttributeKind::MaxItems, "x")), None);
        assert_eq!(synthesize_rule(field, &flag(AttributeKind::MinItems)), None);
        assert_eq!(synthesize_rule(field, &flag(AttributeKind::UniqueItems)), Some(RuleKind::UniqueItems));
    }
    for field in [&text, &optional_text, &id, &optional_id, &map, &number] {
        assert_eq!(synthesize_rule(field, &with(AttributeKind::MaxItems, "3")), None);
        assert_eq!(synthesize_rule(field, &with(AttributeKind::MinItems, "3")), None);
        assert_eq!(synthesize_rule(field, &flag(AttributeKind::UniqueItems)), None);
    }

    assert_eq!(
        synthesize_rule(&text, &with(AttributeKind::Format, "email")),
        Some(RuleKind::Format("email".to_string()))
    );
    assert_eq!(
        synthesize_rule(&text, &with(AttributeKind::Validator, "PhoneValidator::new")),
        Some(RuleKind::CustomValidator(ValidatorPath {
            module: Some("PhoneValidator".to_string()),
            name: "new".to_string()
        }))
    );
    assert_eq!(
        synthesize_rule(&text, &with(AttributeKind::Validator, "PHONE")),
        Some(RuleKind::CustomValidator(ValidatorPath { module: None, name: "PHONE".to_string() }))
    );
    assert_eq!(synthesize_rule(&text, &flag(AttributeKind::Format)), None);
    assert_eq!(synthesize_rule(&text, &flag(AttributeKind::Validator)), None);
    for field in [&optional_text, &id, &optional_id, &ids, &texts, &numbers, &map, &number] {
        assert_eq!(synthesize_rule(field, &with(AttributeKind::Format, "email")), None);
        assert_eq!(synthesize_rule(field, &with(AttributeKind::Validator, "v")), None);
    }
}

#[test]
fn a_write_only_field_is_not_checked_for_presence() {
    let secret = tagged(
        "password",
        "String",
        vec![
            Attribute::flag(AttributeKind::NotNull),
            Attribute::flag(AttributeKind::Nonempty),
            Attribute::flag(AttributeKind::WriteOnly),
            Attribute::flag(AttributeKind::Unique),
        ],
    );
    assert_eq!(synthesize_rule(&secret, &Attribute::flag(AttributeKind::NotNull)), None);
    assert_eq!(synthesize_rule(&secret, &Attribute::flag(AttributeKind::Nonempty)), None);
    assert_eq!(
        synthesize_rule(&secret, &Attribute::flag(AttributeKind::Unique)),
        Some(RuleKind::Uniqueness)
    );
}

#[test]
fn fields_are_found_by_name() {
    let fields = vec![key(), plain("a", "String"), plain("b", "i64"), plain("a", "i64")];
    assert_eq!(find_field(&fields, "id"), Some(0));
    assert_eq!(find_field(&fields, "a"), Some(1));
    assert_eq!(find_field(&fields, "b"), Some(2));
    assert_eq!(find_field(&fields, "c"), None);
    assert_eq!(find_field(&vec![], "a"), None);
}

#[test]
fn a_composite_rule_joins_names_and_resolves_columns() {
    let fields = vec![key(), plain("tenant", "String"), plain("email", "String")];
    let names = vec!["email".to_string(), "missing".to_string(), "tenant".to_string()];
    assert_eq!(
        synthesize_composite(&fields, &names),
        ConstraintRule::Composite {
            label: "email_missing_tenant".to_string(),
            columns: vec![
                Column { name: "email".to_string(), field: 2 },
                Column { name: "tenant".to_string(), field: 1 },
            ],
        }
    );
}

#[test]
fn rules_follow_declaration_order() {
    let fields = vec![
        tagged(
            "name",
            "String",
            vec![
                Attribute::with_payload(AttributeKind::MaxLength, "10"),
                Attribute::flag(AttributeKind::NotNull),
                Attribute::flag(AttributeKind::Snapshot),
                Attribute::flag(AttributeKind::Unique),
            ],
        ),
        key(),
        tagged(
            "tags",
            "Vec<Uuid>",
            vec![
                Attribute::with_payload(AttributeKind::Reference, "Tag"),
                Attribute::with_payload(AttributeKind::Length, "3"),
                Attribute::flag(AttributeKind::UniqueItems),
            ],
        ),
    ];
    let groups = vec![vec!["name".to_string(), "id".to_string()]];
    let descriptor = CompiledBehaviorDescriptor::build(fields, groups).unwrap();
    assert_eq!(
        descriptor.rules(),
        &vec![
            field_rule(1, "id", RuleKind::NotDefault),
            ConstraintRule::Composite {
                label: "name_id".to_string(),
                columns: vec![
                    Column { name: "name".to_string(), field: 0 },
                    Column { name: "id".to_string(), field: 1 },
                ],
            },
            field_rule(0, "name", RuleKind::LengthMax(10)),
            field_rule(0, "name", RuleKind::NonNil),
            field_rule(0, "name", RuleKind::Uniqueness),
            field_rule(2, "tags", RuleKind::ReferentialIntegrity("Tag".to_string())),
            field_rule(2, "tags", RuleKind::UniqueItems),
        ]
    );
}

#[test]
fn a_generated_primary_key_has_no_rule() {
    let generated = tagged(
        "id",
        "i64",
        vec![Attribute::flag(AttributeKind::PrimaryKey), Attribute::flag(AttributeKind::AutoIncrement)],
    );
    let descriptor = CompiledBehaviorDescriptor::build(vec![generated], vec![]).unwrap();
    assert!(descriptor.rules().is_empty());
    let assigned = CompiledBehaviorDescriptor::build(vec![key()], vec![]).unwrap();
    assert_eq!(assigned.rules(), &vec![field_rule(0, "id", RuleKind::NotDefault)]);
}
