use entity_schema::identifier::Identifier;
use entity_schema::seqs::join;
use entity_schema::shape::{classify, is_wrapped, TypeShape};
use entity_schema::text::{
    chars_of, decimal_text, parse_count, resolve_path, skip_leading, skip_trailing, text_eq,
    trim_bounds, CharClass,
};

#[test]
fn text_eq_compares_characters() {
    assert!(text_eq("", ""));
    assert!(text_eq("unique", "unique"));
    assert!(!text_eq("unique", "unique_on"));
    assert!(!text_eq("abc", "abd"));
    assert!(text_eq("héllo", "héllo"));
    assert!(!text_eq("héllo", "hello"));
}

#[test]
fn decimal_text_writes_numerals() {
    assert_eq!(decimal_text(0), "0");
    assert_eq!(decimal_text(7), "7");
    assert_eq!(decimal_text(10), "10");
    assert_eq!(decimal_text(12345), "12345");
    assert_eq!(decimal_text(usize::MAX), usize::MAX.to_string());
}

#[test]
fn parse_count_reads_unsigned_numerals() {
    assert_eq!(parse_count("0"), Some(0));
    assert_eq!(parse_count("12"), Some(12));
    assert_eq!(parse_count("+7"), Some(7));
    assert_eq!(parse_count("007"), Some(7));
    assert_eq!(parse_count(&usize::MAX.to_string()), Some(usize::MAX));
}

#[test]
fn parse_count_refuses_what_is_no_count() {
    assert_eq!(parse_count(""), None);
    assert_eq!(parse_count("+"), None);
    assert_eq!(parse_count("-1"), None);
    assert_eq!(parse_count("1a"), None);
    assert_eq!(parse_count(" 1"), None);
    assert_eq!(parse_count("1 "), None);
    assert_eq!(parse_count("++1"), None);
    assert_eq!(parse_count("١٢"), None);
    assert_eq!(parse_count("340282366920938463463374607431768211456"), None);
}

#[test]
fn parse_count_agrees_with_the_standard_parser() {
    for text in ["0", "5", "+5", "-5", "", "+", "05", "5x", "x5", "99999999999999999999999"] {
        assert_eq!(parse_count(text), text.parse::<usize>().ok());
    }
}

#[test]
fn chars_of_lists_characters() {
    assert_eq!(chars_of(""), Vec::<char>::new());
    assert_eq!(chars_of("aé(b"), vec!['a', 'é', '(', 'b']);
}

#[test]
fn trimming_skips_runs_of_the_class() {
    let chars = chars_of("((a, b))");
    assert_eq!(skip_leading(&chars, 0, chars.len(), CharClass::OpenParenthesis), 2);
    assert_eq!(skip_trailing(&chars, 2, chars.len(), CharClass::CloseParenthesis), 6);
    let spaced = chars_of(" \t name\u{3000} ");
    assert_eq!(trim_bounds(&spaced, 0, spaced.len(), CharClass::Whitespace), (3, 7));
    let blank = chars_of("   ");
    assert_eq!(trim_bounds(&blank, 0, blank.len(), CharClass::Whitespace), (3, 3));
}

#[test]
fn whitespace_class_agrees_with_the_standard_one() {
    for code in 0u32..0x3100 {
        if let Some(c) = char::from_u32(code) {
            assert_eq!(CharClass::Whitespace.test(c), c.is_whitespace());
        }
    }
    assert!(CharClass::AngleBracket.test('<'));
    assert!(CharClass::AngleBracket.test('>'));
    assert!(!CharClass::AngleBracket.test('('));
}

#[test]
fn resolve_path_splits_at_the_first_separator() {
    assert_eq!(
        resolve_path("EmailValidator::new"),
        (Some("EmailValidator".to_string()), "new".to_string())
    );
    assert_eq!(resolve_path("a::b::c"), (Some("a".to_string()), "b::c".to_string()));
    assert_eq!(resolve_path("validator"), (None, "validator".to_string()));
    assert_eq!(resolve_path("a:b"), (None, "a:b".to_string()));
    assert_eq!(resolve_path("::"), (Some(String::new()), String::new()));
    assert_eq!(resolve_path(":"), (None, ":".to_string()));
    assert_eq!(resolve_path(""), (None, String::new()));
    assert_eq!(resolve_path("é::ü"), (Some("é".to_string()), "ü".to_string()));
}

#[test]
fn join_puts_the_separator_between_items() {
    assert_eq!(join(&vec![], "_"), "");
    assert_eq!(join(&vec!["a".to_string()], "_"), "a");
    assert_eq!(join(&vec!["a".to_string(), "b".to_string(), "c".to_string()], "_"), "a_b_c");
}

#[test]
fn identifier_text_is_hyphenated_lower_hex() {
    assert_eq!(Identifier::nil().to_text(), "00000000-0000-0000-0000-000000000000");
    assert_eq!(
        Identifier::from_bits(0x0123_4567_89ab_cdef_0123_4567_89ab_cdef).to_text(),
        "01234567-89ab-cdef-0123-456789abcdef"
    );
    assert_eq!(Identifier::from_bits(u128::MAX).to_text(), "ffffffff-ffff-ffff-ffff-ffffffffffff");
    assert_eq!(Identifier::from_bits(1).to_text(), "00000000-0000-0000-0000-000000000001");
}

#[test]
fn identifier_nil_is_the_zero_value() {
    assert!(Identifier::nil().is_nil());
    assert!(Identifier::from_bits(0).is_nil());
    assert!(!Identifier::from_bits(1).is_nil());
}

#[test]
fn classifies_the_nine_shapes() {
    assert_eq!(classify("Uuid"), TypeShape::Identifier);
    assert_eq!(classify("Option<Uuid>"), TypeShape::OptionalIdentifier);
    assert_eq!(classify("Vec<Uuid>"), TypeShape::IdentifierCollection);
    assert_eq!(classify("String"), TypeShape::Text);
    assert_eq!(classify("Option<String>"), TypeShape::OptionalText);
    assert_eq!(classify("Vec<String>"), TypeShape::TextCollection);
    assert_eq!(classify("Vec<i64>"), TypeShape::OpaqueCollection);
    assert_eq!(classify("Option<DateTime>"), TypeShape::OpaqueOptional);
    assert_eq!(classify("i64"), TypeShape::Opaque);
    assert_eq!(classify("Map"), TypeShape::Opaque);
    assert_eq!(classify(""), TypeShape::Opaque);
}

#[test]
fn classification_reads_the_name_only() {
    assert_eq!(classify("Vec<"), TypeShape::Opaque);
    assert_eq!(classify("Vec<>"), TypeShape::OpaqueCollection);
    assert_eq!(classify("Vector<u8>"), TypeShape::Opaque);
    assert_eq!(classify("Option<Vec<Uuid>>"), TypeShape::OpaqueOptional);
    assert_eq!(classify("uuid"), TypeShape::Opaque);
    assert!(is_wrapped("Box<T>", "Box"));
    assert!(!is_wrapped("Box<T", "Box"));
    assert!(!is_wrapped("Box", "Box"));
}

#[test]
fn shapes_know_their_family() {
    assert!(TypeShape::TextCollection.is_collection());
    assert!(TypeShape::IdentifierCollection.is_collection());
    assert!(TypeShape::OpaqueCollection.is_collection());
    assert!(!TypeShape::Text.is_collection());
    assert!(!TypeShape::OpaqueOptional.is_collection());
}
