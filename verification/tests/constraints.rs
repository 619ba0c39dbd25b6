use entity_schema::evaluation::{
    evaluate, next_request, requests, Answer, CheckError, ColumnValue, Failure, Request,
};
use entity_schema::descriptor::CompiledBehaviorDescriptor;
use entity_schema::identifier::Identifier;
use entity_schema::rule::{Column, ConstraintRule, RuleKind, ValidatorPath};
use entity_schema::schema::{Attribute, AttributeKind, FieldSchema};
use entity_schema::value::{FieldValue, Instance, Opaque};

fn rule(kind: RuleKind) -> ConstraintRule {
    ConstraintRule::Field { field: 0, name: "f".to_string(), kind }
}

fn one(value: FieldValue) -> Instance {
    Instance::new(vec![value])
}

fn text(s: &str) -> FieldValue {
    FieldValue::Text(s.to_string())
}

fn texts(items: &[&str]) -> FieldValue {
    FieldValue::TextCollection(items.iter().map(|s| s.to_string()).collect())
}

fn id(bits: u128) -> Identifier {
    Identifier::from_bits(bits)
}

fn failure(field: &str, message: &str) -> Option<Failure> {
    Some(Failure { field: field.to_string(), message: message.to_string() })
}

fn unique_on(name: &str, value: &str) -> Option<Request> {
    Some(Request::IsUniqueOn(vec![ColumnValue { name: name.to_string(), value: value.to_string() }]))
}

#[test]
fn uniqueness_of_an_empty_text_asks_nothing_and_never_fails() {
    let unique = rule(RuleKind::Uniqueness);
    let empty = one(text(""));
    assert_eq!(unique.request(&empty), None);
    assert_eq!(unique.judge(&empty, None), None);
    assert_eq!(unique.judge(&empty, Some(&Answer::Unique(false))), None);
    assert_eq!(unique.judge(&empty, Some(&Answer::Unique(true))), None);
    assert!(unique.is_settled(&empty, None));
}

#[test]
fn uniqueness_of_a_text_is_asked_and_recorded() {
    let unique = rule(RuleKind::Uniqueness);
    let alice = one(text("alice"));
    assert_eq!(unique.request(&alice), unique_on("f", "alice"));
    assert_eq!(
        unique.judge(&alice, Some(&Answer::Unique(false))),
        failure("f", "the value `alice` is not unique")
    );
    assert_eq!(unique.judge(&alice, Some(&Answer::Unique(true))), None);
    assert!(!unique.is_settled(&alice, None));
    assert!(unique.is_settled(&alice, Some(&Answer::Unique(true))));
    assert!(!unique.is_settled(&alice, Some(&Answer::Matched(1))));
    assert!(!unique.is_settled(&alice, Some(&Answer::Accepted)));
}

#[test]
fn uniqueness_skips_nil_identifiers_and_absent_texts() {
    let unique = rule(RuleKind::Uniqueness);
    assert_eq!(unique.request(&one(FieldValue::Identifier(Identifier::nil()))), None);
    assert_eq!(unique.request(&one(FieldValue::OptionalText(None))), None);
    assert_eq!(unique.request(&one(FieldValue::OptionalText(Some(String::new())))), None);
    assert_eq!(
        unique.request(&one(FieldValue::OptionalText(Some("x".to_string())))),
        unique_on("f", "x")
    );
    let present = one(FieldValue::Identifier(id(0xab)));
    assert_eq!(unique.request(&present), unique_on("f", "00000000-0000-0000-0000-0000000000ab"));
    assert_eq!(
        unique.judge(&present, Some(&Answer::Unique(false))),
        failure("f", "the value `00000000-0000-0000-0000-0000000000ab` is not unique")
    );
}

#[test]
fn uniqueness_of_any_other_shape_always_asks() {
    let unique = rule(RuleKind::Uniqueness);
    assert_eq!(unique.request(&one(FieldValue::Opaque(Opaque::scalar("0", true)))), unique_on("f", "0"));
    assert_eq!(unique.request(&one(FieldValue::OpaqueOptional(None))), unique_on("f", ""));
    assert_eq!(unique.request(&one(FieldValue::OptionalIdentifier(None))), unique_on("f", ""));
    assert_eq!(unique.request(&one(texts(&["a", "b"]))), unique_on("f", "a,b"));
    assert_eq!(
        unique.judge(&one(FieldValue::Opaque(Opaque::scalar("42", false))), Some(&Answer::Unique(false))),
        failure("f", "the value `42` is not unique")
    );
}

#[test]
fn not_null_fails_on_empty_text_and_nil_identifier() {
    let non_nil = rule(RuleKind::NonNil);
    assert_eq!(non_nil.judge(&one(text("")), None), failure("f", "it should be nonempty"));
    assert_eq!(non_nil.judge(&one(text("x")), None), None);
    assert_eq!(
        non_nil.judge(&one(FieldValue::Identifier(Identifier::nil())), None),
        failure("f", "it should not be nil")
    );
    assert_eq!(non_nil.judge(&one(FieldValue::Identifier(id(9))), None), None);
    assert_eq!(non_nil.judge(&one(FieldValue::OptionalText(None)), None), None);
    assert_eq!(non_nil.request(&one(text(""))), None);
}

#[test]
fn nonempty_fails_on_what_holds_nothing() {
    let nonempty = rule(RuleKind::Nonempty);
    assert_eq!(nonempty.judge(&one(text("")), None), failure("f", "it should be nonempty"));
    assert_eq!(nonempty.judge(&one(texts(&[])), None), failure("f", "it should be nonempty"));
    assert_eq!(
        nonempty.judge(&one(FieldValue::Opaque(Opaque::container("{}", true))), None),
        failure("f", "it should be nonempty")
    );
    assert_eq!(nonempty.judge(&one(FieldValue::Opaque(Opaque::container("{\"a\":1}", false))), None), None);
    assert_eq!(nonempty.judge(&one(texts(&["a"])), None), None);
    assert_eq!(nonempty.judge(&one(text("a")), None), None);
}

#[test]
fn length_rules_count_bytes() {
    let five = one(text("hello"));
    assert_eq!(rule(RuleKind::LengthExact(5)).judge(&five, None), None);
    assert_eq!(
        rule(RuleKind::LengthExact(6)).judge(&five, None),
        failure("f", "the length should be 6")
    );
    assert_eq!(rule(RuleKind::LengthMax(5)).judge(&five, None), None);
    assert_eq!(
        rule(RuleKind::LengthMax(4)).judge(&five, None),
        failure("f", "the length should be at most 4")
    );
    assert_eq!(rule(RuleKind::LengthMin(5)).judge(&five, None), None);
    assert_eq!(
        rule(RuleKind::LengthMin(12)).judge(&five, None),
        failure("f", "the length should be at least 12")
    );
    let accented = one(text("é"));
    assert_eq!(rule(RuleKind::LengthExact(2)).judge(&accented, None), None);
    assert_eq!(
        rule(RuleKind::LengthMax(1)).judge(&accented, None),
        failure("f", "the length should be at most 1")
    );
    assert_eq!(
        rule(RuleKind::LengthMax(0)).judge(&five, None),
        failure("f", "the length should be at most 0")
    );
}

#[test]
fn length_rules_pass_over_an_absent_text() {
    let absent = one(FieldValue::OptionalText(None));
    assert_eq!(rule(RuleKind::LengthExact(3)).judge(&absent, None), None);
    assert_eq!(rule(RuleKind::LengthMin(3)).judge(&absent, None), None);
    let present = one(FieldValue::OptionalText(Some("ab".to_string())));
    assert_eq!(
        rule(RuleKind::LengthMin(3)).judge(&present, None),
        failure("f", "the length should be at least 3")
    );
    assert_eq!(rule(RuleKind::LengthExact(3)).judge(&one(FieldValue::Identifier(id(1))), None), None);
}

#[test]
fn item_count_rules_count_elements() {
    let three = one(texts(&["a", "b", "c"]));
    assert_eq!(rule(RuleKind::ItemCountMax(3)).judge(&three, None), None);
    assert_eq!(
        rule(RuleKind::ItemCountMax(2)).judge(&three, None),
        failure("f", "the length should be at most 2")
    );
    assert_eq!(rule(RuleKind::ItemCountMin(3)).judge(&three, None), None);
    assert_eq!(
        rule(RuleKind::ItemCountMin(4)).judge(&three, None),
        failure("f", "the length should be at least 4")
    );
    assert_eq!(rule(RuleKind::ItemCountMax(0)).judge(&one(text("abc")), None), None);
}

#[test]
fn unique_items_reports_one_failure_for_a_repeated_item() {
    let unique_items = rule(RuleKind::UniqueItems);
    let repeated = one(texts(&["a", "b", "a"]));
    assert_eq!(unique_items.judge(&repeated, None), failure("f", "array items should be unique"));
    let rules = vec![unique_items.clone()];
    let failures = evaluate(&rules, &repeated, &vec![None]).unwrap();
    assert_eq!(failures.len(), 1);
    let many = one(texts(&["a", "a", "b", "b", "a"]));
    assert_eq!(evaluate(&rules, &many, &vec![]).unwrap().len(), 1);
    assert_eq!(unique_items.judge(&one(texts(&["a", "b", "c"])), None), None);
    assert_eq!(unique_items.judge(&one(texts(&[])), None), None);
    let ids = one(FieldValue::IdentifierCollection(vec![id(1), id(2), id(2)]));
    assert_eq!(unique_items.judge(&ids, None), failure("f", "array items should be unique"));
    let opaque = one(FieldValue::OpaqueCollection(vec![
        Opaque::scalar("1", false),
        Opaque::scalar("2", false),
    ]));
    assert_eq!(unique_items.judge(&opaque, None), None);
    let opaque_repeated = one(FieldValue::OpaqueCollection(vec![
        Opaque::scalar("1", false),
        Opaque::scalar("2", false),
        Opaque::scalar("1", false),
    ]));
    assert_eq!(unique_items.judge(&opaque_repeated, None), failure("f", "array items should be unique"));
}

#[test]
fn format_and_validator_delegate_for_a_text_that_is_not_empty() {
    let format = rule(RuleKind::Format("email".to_string()));
    let validator = rule(RuleKind::CustomValidator(ValidatorPath::resolve("PhoneValidator::new")));
    let empty = one(text(""));
    assert_eq!(format.request(&empty), None);
    assert_eq!(validator.request(&empty), None);
    assert_eq!(format.judge(&empty, Some(&Answer::Rejected("bad".to_string()))), None);
    let value = one(text("nobody"));
    assert_eq!(
        format.request(&value),
        Some(Request::CheckFormat { format: "email".to_string(), value: "nobody".to_string() })
    );
    assert_eq!(
        validator.request(&value),
        Some(Request::Validate {
            validator: ValidatorPath {
                module: Some("PhoneValidator".to_string()),
                name: "new".to_string()
            },
            value: "nobody".to_string()
        })
    );
    assert_eq!(
        format.judge(&value, Some(&Answer::Rejected("invalid email".to_string()))),
        failure("f", "invalid email")
    );
    assert_eq!(format.judge(&value, Some(&Answer::Accepted)), None);
    assert_eq!(
        validator.judge(&value, Some(&Answer::Rejected("invalid phone".to_string()))),
        failure("f", "invalid phone")
    );
    assert!(format.is_settled(&value, Some(&Answer::Accepted)));
    assert!(format.is_settled(&value, Some(&Answer::Rejected(String::new()))));
    assert!(!format.is_settled(&value, Some(&Answer::Unique(true))));
    assert!(!validator.is_settled(&value, None));
}

#[test]
fn a_validator_is_resolved_from_its_path() {
    assert_eq!(
        ValidatorPath::resolve("PhoneValidator::new"),
        ValidatorPath { module: Some("PhoneValidator".to_string()), name: "new".to_string() }
    );
    assert_eq!(
        ValidatorPath::resolve("a::b::c"),
        ValidatorPath { module: Some("a".to_string()), name: "b::c".to_string() }
    );
    let bare = ValidatorPath::resolve("PHONE");
    assert_eq!(bare, ValidatorPath { module: None, name: "PHONE".to_string() });
    assert_eq!(bare.duplicate(), bare);
    let by_name = rule(RuleKind::CustomValidator(bare.clone()));
    assert_eq!(
        by_name.request(&one(text("12345"))),
        Some(Request::Validate { validator: bare, value: "12345".to_string() })
    );
}

#[test]
fn a_collection_reference_with_missing_rows_is_plural() {
    let reference = rule(RuleKind::ReferentialIntegrity("Tag".to_string()));
    let three = one(FieldValue::IdentifierCollection(vec![id(1), id(2), id(3)]));
    assert_eq!(
        reference.request(&three),
        Some(Request::FilterByValues {
            entity: "Tag".to_string(),
            values: vec![
                "00000000-0000-0000-0000-000000000001".to_string(),
                "00000000-0000-0000-0000-000000000002".to_string(),
                "00000000-0000-0000-0000-000000000003".to_string(),
            ],
        })
    );
    assert_eq!(
        reference.judge(&three, Some(&Answer::Matched(2))),
        failure("f", "there are nonexistent values")
    );
    assert_eq!(
        reference.judge(&three, Some(&Answer::Matched(0))),
        failure("f", "there are nonexistent values")
    );
    assert_eq!(reference.judge(&three, Some(&Answer::Matched(3))), None);
    let single = one(texts(&["only"]));
    assert_eq!(
        reference.judge(&single, Some(&Answer::Matched(0))),
        failure("f", "there are nonexistent values")
    );
    let numbers = one(FieldValue::OpaqueCollection(vec![Opaque::scalar("7", false)]));
    assert_eq!(
        reference.request(&numbers),
        Some(Request::FilterByValues { entity: "Tag".to_string(), values: vec!["7".to_string()] })
    );
}

#[test]
fn a_singular_reference_with_a_missing_row_is_singular() {
    let reference = rule(RuleKind::ReferentialIntegrity("User".to_string()));
    let scalar = one(FieldValue::Identifier(id(5)));
    assert_eq!(
        reference.judge(&scalar, Some(&Answer::Matched(0))),
        failure("f", "it is a nonexistent value")
    );
    assert_eq!(reference.judge(&scalar, Some(&Answer::Matched(1))), None);
    let optional = one(FieldValue::OptionalIdentifier(Some(id(5))));
    assert_eq!(
        reference.judge(&optional, Some(&Answer::Matched(0))),
        failure("f", "it is a nonexistent value")
    );
    let opaque = one(FieldValue::Opaque(Opaque::scalar("12", false)));
    assert_eq!(
        reference.request(&opaque),
        Some(Request::FilterByValues { entity: "User".to_string(), values: vec!["12".to_string()] })
    );
    assert_eq!(
        reference.judge(&opaque, Some(&Answer::Matched(2))),
        failure("f", "it is a nonexistent value")
    );
}

#[test]
fn a_reference_with_nothing_to_check_asks_nothing() {
    let reference = rule(RuleKind::ReferentialIntegrity("Tag".to_string()));
    for value in [
        FieldValue::OptionalIdentifier(None),
        FieldValue::OptionalText(None),
        FieldValue::OpaqueOptional(None),
        FieldValue::IdentifierCollection(vec![]),
        FieldValue::TextCollection(vec![]),
        FieldValue::OpaqueCollection(vec![]),
    ] {
        let instance = one(value);
        assert_eq!(reference.request(&instance), None);
        assert_eq!(reference.judge(&instance, Some(&Answer::Matched(0))), None);
        assert!(reference.is_settled(&instance, None));
    }
}

#[test]
fn the_primary_key_must_not_be_a_default_value() {
    let not_default = rule(RuleKind::NotDefault);
    assert_eq!(
        not_default.judge(&one(FieldValue::Identifier(Identifier::nil())), None),
        failure("f", "should not be a default value")
    );
    assert_eq!(
        not_default.judge(&one(FieldValue::Opaque(Opaque::scalar("0", true))), None),
        failure("f", "should not be a default value")
    );
    assert_eq!(not_default.judge(&one(text("")), None), failure("f", "should not be a default value"));
    assert_eq!(not_default.judge(&one(FieldValue::Identifier(id(1))), None), None);
    assert_eq!(not_default.judge(&one(FieldValue::Opaque(Opaque::scalar("3", false))), None), None);
}

#[test]
fn a_composite_rule_asks_for_all_its_columns() {
    let composite = ConstraintRule::Composite {
        label: "tenant_email".to_string(),
        columns: vec![
            Column { name: "tenant".to_string(), field: 1 },
            Column { name: "email".to_string(), field: 0 },
            Column { name: "ghost".to_string(), field: 9 },
        ],
    };
    let instance = Instance::new(vec![text("a@b.c"), FieldValue::Identifier(id(1))]);
    assert_eq!(
        composite.request(&instance),
        Some(Request::IsUniqueOn(vec![
            ColumnValue {
                name: "tenant".to_string(),
                value: "00000000-0000-0000-0000-000000000001".to_string()
            },
            ColumnValue { name: "email".to_string(), value: "a@b.c".to_string() },
        ]))
    );
    assert_eq!(
        composite.judge(&instance, Some(&Answer::Unique(false))),
        failure("tenant_email", "the composite values should be unique")
    );
    assert_eq!(composite.judge(&instance, Some(&Answer::Unique(true))), None);
    assert!(!composite.is_settled(&instance, None));
}

#[test]
fn a_rule_on_a_field_without_value_does_nothing() {
    let empty = Instance::new(vec![]);
    for kind in [
        RuleKind::NotDefault,
        RuleKind::Uniqueness,
        RuleKind::NonNil,
        RuleKind::Nonempty,
        RuleKind::LengthMin(1),
        RuleKind::ItemCountMin(1),
        RuleKind::ReferentialIntegrity("Tag".to_string()),
    ] {
        let r = rule(kind);
        assert_eq!(r.request(&empty), None);
        assert_eq!(r.judge(&empty, Some(&Answer::Unique(false))), None);
    }
}

fn account_descriptor() -> CompiledBehaviorDescriptor {
    let fields = vec![
        FieldSchema::new("id", None, "Uuid", vec![Attribute::flag(AttributeKind::PrimaryKey)]),
        FieldSchema::new(
            "name",
            None,
            "String",
            vec![
                Attribute::flag(AttributeKind::NotNull),
                Attribute::flag(AttributeKind::Unique),
                Attribute::with_payload(AttributeKind::MaxLength, "5"),
            ],
        ),
        FieldSchema::new(
            "tags",
            None,
            "Vec<Uuid>",
            vec![
                Attribute::with_payload(AttributeKind::Reference, "Tag"),
                Attribute::with_payload(AttributeKind::MaxItems, "1"),
            ],
        ),
        FieldSchema::new(
            "email",
            None,
            "String",
            vec![Attribute::with_payload(AttributeKind::Format, "email")],
        ),
    ];
    CompiledBehaviorDescriptor::build(fields, vec![vec!["name".to_string(), "email".to_string()]])
        .unwrap()
}

fn account(name: &str, tags: Vec<Identifier>, email: &str) -> Instance {
    Instance::new(vec![
        FieldValue::Identifier(Identifier::nil()),
        text(name),
        FieldValue::IdentifierCollection(tags),
        text(email),
    ])
}

#[test]
fn every_violated_rule_records_one_failure_in_declaration_order() {
    let descriptor = account_descriptor();
    let instance = account("toolong", vec![id(1), id(2)], "nobody");
    let asked = descriptor.requests(&instance);
    assert_eq!(asked.len(), 8);
    assert_eq!(
        asked.iter().map(|r| r.is_some()).collect::<Vec<bool>>(),
        vec![false, true, false, true, false, true, false, true]
    );
    let aligned = vec![
        None,
        Some(Answer::Unique(false)),
        None,
        Some(Answer::Unique(false)),
        None,
        Some(Answer::Matched(1)),
        None,
        Some(Answer::Rejected("invalid email".to_string())),
    ];
    let failures = descriptor.check_constraints(&instance, &aligned).unwrap();
    assert_eq!(
        failures,
        vec![
            Failure { field: "id".to_string(), message: "should not be a default value".to_string() },
            Failure {
                field: "name_email".to_string(),
                message: "the composite values should be unique".to_string()
            },
            Failure {
                field: "name".to_string(),
                message: "the value `toolong` is not unique".to_string()
            },
            Failure {
                field: "name".to_string(),
                message: "the length should be at most 5".to_string()
            },
            Failure {
                field: "tags".to_string(),
                message: "there are nonexistent values".to_string()
            },
            Failure {
                field: "tags".to_string(),
                message: "the length should be at most 1".to_string()
            },
            Failure { field: "email".to_string(), message: "invalid email".to_string() },
        ]
    );
}

#[test]
fn an_instance_that_meets_every_rule_has_no_failure() {
    let descriptor = account_descriptor();
    let instance = Instance::new(vec![
        FieldValue::Identifier(id(77)),
        text("bob"),
        FieldValue::IdentifierCollection(vec![id(1)]),
        text("bob@example.com"),
    ]);
    let answers = vec![
        None,
        Some(Answer::Unique(true)),
        None,
        Some(Answer::Unique(true)),
        None,
        Some(Answer::Matched(1)),
        None,
        Some(Answer::Accepted),
    ];
    assert_eq!(descriptor.check_constraints(&instance, &answers), Ok(vec![]));
}

#[test]
fn a_missing_answer_abandons_the_check() {
    let descriptor = account_descriptor();
    let instance = account("toolong", vec![id(1), id(2)], "nobody");
    assert_eq!(
        descriptor.check_constraints(&instance, &vec![]),
        Err(CheckError::Unanswered { rule: 1 })
    );
    let partial = vec![None, Some(Answer::Unique(true)), None, Some(Answer::Matched(1))];
    assert_eq!(
        descriptor.check_constraints(&instance, &partial),
        Err(CheckError::Unanswered { rule: 3 })
    );
    let wrong = vec![
        None,
        Some(Answer::Unique(true)),
        None,
        Some(Answer::Unique(true)),
        None,
        Some(Answer::Accepted),
    ];
    assert_eq!(
        descriptor.check_constraints(&instance, &wrong),
        Err(CheckError::Unanswered { rule: 5 })
    );
}

#[test]
fn questions_are_found_one_after_another() {
    let descriptor = account_descriptor();
    let instance = account("", vec![], "");
    let first = descriptor.next_request(&instance, 0);
    assert_eq!(
        first,
        Some((
            1,
            Request::IsUniqueOn(vec![
                ColumnValue { name: "name".to_string(), value: String::new() },
                ColumnValue { name: "email".to_string(), value: String::new() },
            ])
        ))
    );
    assert_eq!(descriptor.next_request(&instance, 2), None);
    assert_eq!(descriptor.next_request(&instance, 100), None);
    let failures = descriptor
        .check_constraints(&instance, &vec![None, Some(Answer::Unique(true))])
        .unwrap();
    assert_eq!(
        failures,
        vec![
            Failure { field: "id".to_string(), message: "should not be a default value".to_string() },
            Failure { field: "name".to_string(), message: "it should be nonempty".to_string() },
        ]
    );
}

#[test]
fn the_free_functions_agree_with_the_descriptor() {
    let descriptor = account_descriptor();
    let instance = account("x", vec![id(3)], "e");
    assert_eq!(requests(descriptor.rules(), &instance), descriptor.requests(&instance));
    assert_eq!(next_request(descriptor.rules(), &instance, 4), descriptor.next_request(&instance, 4));
    assert_eq!(
        next_request(descriptor.rules(), &instance, 4).map(|(i, _)| i),
        Some(5)
    );
}
