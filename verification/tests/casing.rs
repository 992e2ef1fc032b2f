use auto_api::utils::casing::{convert_casing_to_pascal, convert_casing_to_snake};

#[test]
fn successfully_convert_casing_to_snake() {
    assert_eq!(&convert_casing_to_snake("snake_case"), "snake_case");
    assert_eq!(&convert_casing_to_snake("SKRM_SNEK_CASE"), "skrm_snek_case");
    assert_eq!(&convert_casing_to_snake("camelCase"), "camel_case");
    assert_eq!(&convert_casing_to_snake("PascalCase"), "pascal_case");
}

#[test]
fn successfully_convert_casing_to_pascal() {
    assert_eq!(&convert_casing_to_pascal("snake_case"), "SnakeCase");
    assert_eq!(&convert_casing_to_pascal("SKRM_SNEK_CASE"), "SkrmSnekCase");
    assert_eq!(&convert_casing_to_pascal("camelCase"), "CamelCase");
    assert_eq!(&convert_casing_to_pascal("PascalCase"), "PascalCase");
}

#[test]
fn screaming_snake_becomes_snake() {
    assert_eq!(&convert_casing_to_snake("SCREAMING_SNAKE"), "screaming_snake");
}

#[test]
fn text_without_a_word_gives_the_empty_name() {
    assert_eq!(&convert_casing_to_snake(""), "");
    assert_eq!(&convert_casing_to_snake("-- {} //"), "");
    assert_eq!(&convert_casing_to_pascal(""), "");
    assert_eq!(&convert_casing_to_pascal("?&="), "");
}

#[test]
fn upper_case_run_is_one_word() {
    assert_eq!(&convert_casing_to_snake("ABc"), "ab_c");
    assert_eq!(&convert_casing_to_pascal("ABc"), "AbC");
    assert_eq!(&convert_casing_to_snake("HTTPServer2go"), "https_erver2go");
    assert_eq!(&convert_casing_to_snake("getHTTP"), "get_http");
}

#[test]
fn digits_belong_to_the_lower_case_run() {
    assert_eq!(&convert_casing_to_snake("v2Pet3"), "v2_pet3");
    assert_eq!(&convert_casing_to_pascal("foo_1bar"), "Foo1bar");
}

#[test]
fn other_characters_only_separate() {
    assert_eq!(&convert_casing_to_snake("{petId}"), "pet_id");
    assert_eq!(&convert_casing_to_snake("caf\u{e9}Ol\u{e9}"), "caf_ol");
    assert_eq!(&convert_casing_to_pascal("pet-store api"), "PetStoreApi");
}

#[test]
fn snake_of_a_snake_name_is_itself() {
    for text in ["PascalCase", "SKRM_SNEK_CASE", "a_b", "ABc", "x", "get/pets/{id}", "v2Pet3"] {
        let once = convert_casing_to_snake(text);
        assert_eq!(convert_casing_to_snake(&once), once);
    }
}

#[test]
fn pascal_of_a_pascal_name_is_itself() {
    for text in ["PascalCase", "SnakeCase", "GetPetsIdOwnerId", "Foo1bar", "X", "1st", "AbC"] {
        assert_eq!(&convert_casing_to_pascal(text), text);
    }
    // two single letters run together, so the name of `a_b` is no fixed point
    assert_eq!(&convert_casing_to_pascal("a_b"), "AB");
    assert_eq!(&convert_casing_to_pascal("AB"), "Ab");
}
