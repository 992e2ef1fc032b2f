use auto_api::text::{
    chars_of, chain, chain3, cut, decimal_text, literal_text, split_text, starts_with,
    starts_with_char, string_of, text_eq,
};
use auto_api::utils::unique::{is_used, unused_identifier};
use auto_api::utils::casing::{
    check_identifier, check_type_identifier, field_identifier, join_texts, to_lower_text, to_upper_text, type_identifier,
};

#[test]
fn numbers_are_written_in_decimal() {
    assert_eq!(decimal_text(0), "0");
    assert_eq!(decimal_text(7), "7");
    assert_eq!(decimal_text(10), "10");
    assert_eq!(decimal_text(4096), "4096");
    assert_eq!(decimal_text(1_000_000_007), "1000000007");
    assert_eq!(decimal_text(u128::MAX), u128::MAX.to_string());
}

#[test]
fn literal_escapes_quotes_and_line_ends() {
    assert_eq!(literal_text(""), "\"\"");
    assert_eq!(literal_text("plain"), "\"plain\"");
    assert_eq!(literal_text("a \"b\" \\ c\nd\r"), "\"a \\\"b\\\" \\\\ c\\nd\\r\"");
    assert_eq!(literal_text("caf\u{e9}\t{}"), "\"caf\u{e9}\t{}\"");
}

#[test]
fn text_is_cut_at_separators() {
    assert_eq!(split_text("a/b//c/", '/'), vec!["a", "b", "", "c", ""]);
    assert_eq!(split_text("", '/'), vec![""]);
    assert_eq!(split_text("abc", '/'), vec!["abc"]);
    assert_eq!(cut("name=value=x", '='), ("name".to_string(), Some("value=x".to_string())));
    assert_eq!(cut("name", '='), ("name".to_string(), None));
    assert_eq!(cut("=", '='), ("".to_string(), Some("".to_string())));
}

#[test]
fn texts_are_compared_and_joined() {
    assert!(text_eq("abc", "abc"));
    assert!(!text_eq("abc", "abd"));
    assert!(!text_eq("abc", "ab"));
    assert!(text_eq("", ""));
    assert!(starts_with("3.0.2", "3.0"));
    assert!(!starts_with("3.1", "3.0"));
    assert!(!starts_with("3.", "3.0"));
    assert!(starts_with("x", ""));
    assert!(starts_with_char("#/a", '#'));
    assert!(!starts_with_char("", '#'));
    assert_eq!(chain("ab", "cd"), "abcd");
    assert_eq!(chain3("a", "", "c"), "ac");
    assert_eq!(string_of(&chars_of("h\u{e9}llo")), "h\u{e9}llo");
    let parts = vec!["a".to_string(), "".to_string(), "c".to_string()];
    assert_eq!(join_texts(&parts, "_"), "a__c");
    assert_eq!(join_texts(&Vec::new(), "_"), "");
    assert_eq!(join_texts(&parts[..1].to_vec(), ", "), "a");
}

#[test]
fn case_changes_only_the_letters_a_to_z() {
    assert_eq!(to_lower_text("GET /Pets\u{c9}"), "get /pets\u{c9}");
    assert_eq!(to_upper_text("get /pets\u{e9}9"), "GET /PETS\u{e9}9");
}

#[test]
fn identifiers_are_always_well_formed() {
    assert_eq!(field_identifier("petId"), "pet_id");
    assert_eq!(field_identifier(""), "unnamed");
    assert_eq!(field_identifier("{}"), "unnamed");
    assert_eq!(field_identifier("2fa"), "_2fa");
    assert_eq!(type_identifier("pet_store"), "PetStore");
    assert_eq!(type_identifier("//"), "Unnamed");
    assert_eq!(type_identifier("3d_model"), "T3dModel");
    for text in ["petId", "", "{}", "2fa", "pet store", "A", "_", "9", "caf\u{e9}"] {
        assert!(check_identifier(&field_identifier(text)));
        assert!(check_identifier(&type_identifier(text)));
    }
    assert!(check_identifier("_a"));
    assert!(check_identifier("a_B9"));
    assert!(!check_identifier("_"));
    assert!(!check_identifier(""));
    assert!(!check_identifier("9a"));
    assert!(!check_identifier("a-b"));
    assert!(!check_identifier("caf\u{e9}"));
}

#[test]
fn keywords_are_no_identifiers() {
    for word in ["type", "match", "fn", "self", "Self", "async", "try", "yield", "crate"] {
        assert!(!check_identifier(word));
        assert!(check_identifier(&format!("{}_", word)));
    }
    assert_eq!(field_identifier("type"), "type_");
    assert_eq!(field_identifier("Match"), "match_");
    assert_eq!(field_identifier("FN"), "fn_");
    assert_eq!(field_identifier("in"), "in_");
    assert_eq!(type_identifier("self"), "Self_");
    assert_eq!(type_identifier("type"), "Type");
    assert_eq!(field_identifier("typed"), "typed");
    assert_eq!(field_identifier("union"), "union");
    assert!(check_identifier("union"));
    assert!(check_identifier("types"));
}

#[test]
fn names_of_the_generated_code_are_no_names_of_types() {
    for name in ["Error", "Client", "Server", "String", "Vec", "Box", "Option", "Result"] {
        assert!(check_identifier(name));
        assert!(!check_type_identifier(name));
        assert!(check_type_identifier(&format!("{}_", name)));
    }
    assert_eq!(type_identifier("error"), "Error_");
    assert_eq!(type_identifier("base_server"), "BaseServer_");
    assert_eq!(type_identifier("errors"), "Errors");
    assert_eq!(field_identifier("Error"), "error");
    assert!(check_type_identifier("Pet"));
    assert!(!check_type_identifier("Self"));
    assert!(!check_type_identifier("9"));
}

#[test]
fn used_names_get_numbers() {
    let used: Vec<String> = ["a", "a2", "b", "a3"].iter().map(|it| it.to_string()).collect();
    assert_eq!(unused_identifier(&used, "c"), "c");
    assert_eq!(unused_identifier(&used, "a"), "a4");
    assert_eq!(unused_identifier(&used, "b"), "b2");
    assert_eq!(unused_identifier(&Vec::new(), "a"), "a");
    assert!(is_used(&used, "a2"));
    assert!(!is_used(&used, "a4"));
}
