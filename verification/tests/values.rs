use entity_schema::identifier::Identifier;
use entity_schema::value::{texts_of_identifiers, FieldValue, Instance, Opaque};

fn id(bits: u128) -> Identifier {
    Identifier::from_bits(bits)
}

fn texts(items: &[&str]) -> Vec<String> {
    items.iter().map(|s| s.to_string()).collect()
}

#[test]
fn values_list_their_items_as_text() {
    assert_eq!(
        FieldValue::Identifier(id(1)).items(),
        texts(&["00000000-0000-0000-0000-000000000001"])
    );
    assert_eq!(FieldValue::OptionalIdentifier(None).items(), texts(&[]));
    assert_eq!(
        FieldValue::OptionalIdentifier(Some(id(2))).items(),
        texts(&["00000000-0000-0000-0000-000000000002"])
    );
    assert_eq!(
        FieldValue::IdentifierCollection(vec![id(1), id(2)]).items(),
        texts(&["00000000-0000-0000-0000-000000000001", "00000000-0000-0000-0000-000000000002"])
    );
    assert_eq!(FieldValue::Text("a".to_string()).items(), texts(&["a"]));
    assert_eq!(FieldValue::OptionalText(Some("a".to_string())).items(), texts(&["a"]));
    assert_eq!(FieldValue::OptionalText(None).items(), texts(&[]));
    assert_eq!(FieldValue::TextCollection(texts(&["a", "b"])).items(), texts(&["a", "b"]));
    assert_eq!(
        FieldValue::OpaqueCollection(vec![Opaque::scalar("1", false), Opaque::scalar("2", false)]).items(),
        texts(&["1", "2"])
    );
    assert_eq!(FieldValue::OpaqueOptional(Some(Opaque::scalar("1", false))).items(), texts(&["1"]));
    assert_eq!(FieldValue::OpaqueOptional(None).items(), texts(&[]));
    assert_eq!(FieldValue::Opaque(Opaque::scalar("x", false)).items(), texts(&["x"]));
    assert_eq!(texts_of_identifiers(&vec![]), texts(&[]));
}

#[test]
fn values_are_written_as_one_text() {
    assert_eq!(FieldValue::Text("a".to_string()).text(), "a");
    assert_eq!(FieldValue::TextCollection(texts(&["a", "b", "c"])).text(), "a,b,c");
    assert_eq!(FieldValue::OptionalText(None).text(), "");
    assert_eq!(FieldValue::Identifier(id(255)).text(), "00000000-0000-0000-0000-0000000000ff");
}

#[test]
fn values_know_their_default_and_their_emptiness() {
    assert!(FieldValue::Identifier(Identifier::nil()).is_default());
    assert!(!FieldValue::Identifier(id(1)).is_default());
    assert!(FieldValue::OptionalIdentifier(None).is_default());
    assert!(!FieldValue::OptionalIdentifier(Some(Identifier::nil())).is_default());
    assert!(FieldValue::Text(String::new()).is_default());
    assert!(FieldValue::TextCollection(vec![]).is_default());
    assert!(FieldValue::Opaque(Opaque::scalar("0", true)).is_default());
    assert!(!FieldValue::Opaque(Opaque::scalar("1", false)).is_default());
    assert!(FieldValue::Opaque(Opaque::container("{}", true)).is_default());

    assert!(FieldValue::Text(String::new()).is_empty());
    assert!(!FieldValue::Text("a".to_string()).is_empty());
    assert!(FieldValue::IdentifierCollection(vec![]).is_empty());
    assert!(FieldValue::OpaqueCollection(vec![]).is_empty());
    assert!(FieldValue::Opaque(Opaque::container("{}", true)).is_empty());
    assert!(!FieldValue::Opaque(Opaque::scalar("0", true)).is_empty());
    assert!(!FieldValue::OptionalText(None).is_empty());
    assert!(!FieldValue::Identifier(Identifier::nil()).is_empty());
}

#[test]
fn values_count_items_and_bytes() {
    assert_eq!(FieldValue::TextCollection(texts(&["a", "b"])).item_count(), Some(2));
    assert_eq!(FieldValue::IdentifierCollection(vec![]).item_count(), Some(0));
    assert_eq!(FieldValue::Text("ab".to_string()).item_count(), None);
    assert_eq!(FieldValue::Text("héllo".to_string()).text_length(), Some(6));
    assert_eq!(FieldValue::OptionalText(Some(String::new())).text_length(), Some(0));
    assert_eq!(FieldValue::OptionalText(None).text_length(), None);
    assert_eq!(FieldValue::TextCollection(texts(&["a"])).text_length(), None);
    assert!(FieldValue::TextCollection(texts(&["a"])).is_collection());
    assert!(!FieldValue::Text("a".to_string()).is_collection());
}

#[test]
fn repeated_items_are_found() {
    assert!(FieldValue::TextCollection(texts(&["a", "b", "a"])).has_duplicate());
    assert!(FieldValue::TextCollection(texts(&["a", "a"])).has_duplicate());
    assert!(!FieldValue::TextCollection(texts(&["a", "b", "c"])).has_duplicate());
    assert!(!FieldValue::TextCollection(texts(&["a"])).has_duplicate());
    assert!(!FieldValue::TextCollection(texts(&[])).has_duplicate());
    assert!(FieldValue::IdentifierCollection(vec![id(1), id(2), id(3), id(2)]).has_duplicate());
    assert!(!FieldValue::IdentifierCollection(vec![id(1), id(2), id(3)]).has_duplicate());
    assert!(!FieldValue::OpaqueCollection(vec![Opaque::scalar("1", false), Opaque::scalar("1", true)])
        .has_duplicate());
    assert!(!FieldValue::Text("aa".to_string()).has_duplicate());
}

#[test]
fn copies_are_equal_to_their_originals() {
    let values = vec![
        FieldValue::Identifier(id(1)),
        FieldValue::OptionalIdentifier(Some(id(2))),
        FieldValue::OptionalIdentifier(None),
        FieldValue::IdentifierCollection(vec![id(1), id(2)]),
        FieldValue::Text("t".to_string()),
        FieldValue::OptionalText(Some("t".to_string())),
        FieldValue::OptionalText(None),
        FieldValue::TextCollection(texts(&["a", "b"])),
        FieldValue::OpaqueCollection(vec![Opaque::scalar("1", false)]),
        FieldValue::OpaqueOptional(Some(Opaque::container("{}", true))),
        FieldValue::OpaqueOptional(None),
        FieldValue::Opaque(Opaque::scalar("x", true)),
    ];
    for value in values.iter() {
        assert_eq!(&value.duplicate(), value);
    }
    let instance = Instance::new(values.clone());
    assert_eq!(instance.get(0), Some(&values[0]));
    assert_eq!(instance.get(11), Some(&values[11]));
    assert_eq!(instance.get(12), None);
    assert!(Opaque::scalar("a", false).same(&Opaque::scalar("a", false)));
    assert!(!Opaque::scalar("a", false).same(&Opaque::scalar("b", false)));
    assert!(!Opaque::scalar("a", false).same(&Opaque::scalar("a", true)));
    assert_eq!(Opaque::container("{}", true).duplicate(), Opaque::container("{}", true));
}
