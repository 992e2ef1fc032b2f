use auto_api::builder::{
    gen_schema_impl, GenerationResult, SchemaModel, SchemaProperty, TypeRegistry,
};
use auto_api::document::{Member, Node};
use auto_api::error::MacroError;

fn text(value: &str) -> Node {
    Node::Text(value.to_string())
}

fn object(members: Vec<(&str, Node)>) -> Node {
    Node::Object(
        members
            .into_iter()
            .map(|(name, value)| Member { name: name.to_string(), value })
            .collect(),
    )
}

fn of_type(name: &str) -> Node {
    object(vec![("type", text(name))])
}

fn pointer(to: &str) -> Node {
    object(vec![("$ref", text(to))])
}

fn record(properties: Vec<(&str, Node)>) -> Node {
    object(vec![("type", text("object")), ("properties", object(properties))])
}

fn model(identifier: &str, definition: &str) -> GenerationResult {
    GenerationResult::Model(SchemaModel {
        identifier: identifier.to_string(),
        definition: definition.to_string(),
    })
}

fn property(identifier: &str, definition: &str) -> GenerationResult {
    GenerationResult::Property(SchemaProperty {
        identifier: identifier.to_string(),
        definition: definition.to_string(),
    })
}

fn registered(registry: &TypeRegistry) -> Vec<(String, String)> {
    (0..registry.len())
        .map(|i| (registry.pointer_at(i).to_string(), registry.model_at(i).identifier.clone()))
        .collect()
}

fn pair(pointer: &str, identifier: &str) -> (String, String) {
    (pointer.to_string(), identifier.to_string())
}

#[test]
fn primitives_give_properties_and_register_nothing() {
    let root = object(vec![
        ("name", of_type("string")),
        ("price", of_type("number")),
        ("petCount", of_type("integer")),
        ("sold", of_type("boolean")),
    ]);
    let mut registry = TypeRegistry::new();
    assert_eq!(gen_schema_impl(&mut registry, &root, "#/name", ""), Ok(property("name", "String")));
    assert_eq!(gen_schema_impl(&mut registry, &root, "#/price", ""), Ok(property("price", "i32")));
    assert_eq!(
        gen_schema_impl(&mut registry, &root, "#/petCount", "ignored"),
        Ok(property("pet_count", "i32"))
    );
    assert_eq!(gen_schema_impl(&mut registry, &root, "#/sold", ""), Ok(property("sold", "bool")));
    assert_eq!(registry.len(), 0);
}

#[test]
fn array_is_a_sequence_of_what_its_items_give() {
    let root = object(vec![
        ("names", object(vec![("type", text("array")), ("items", of_type("string"))])),
        ("pets", object(vec![("type", text("array")), ("items", pointer("#/Pet"))])),
        ("Pet", record(vec![("id", of_type("integer"))])),
    ]);
    let mut registry = TypeRegistry::new();
    assert_eq!(
        gen_schema_impl(&mut registry, &root, "#/names", ""),
        Ok(property("names", "Vec<String>"))
    );
    assert_eq!(
        gen_schema_impl(&mut registry, &root, "#/pets", ""),
        Ok(property("pets", "Vec<Pet>"))
    );
    assert_eq!(registered(&registry), vec![pair("#/Pet", "Pet")]);
}

#[test]
fn object_gives_a_record_with_its_fields_in_order() {
    let root = object(vec![(
        "Pet",
        record(vec![
            ("petId", of_type("integer")),
            ("name", of_type("string")),
            ("photoUrls", object(vec![("type", text("array")), ("items", of_type("string"))])),
            ("category", record(vec![("name", of_type("string"))])),
        ]),
    )]);
    let mut registry = TypeRegistry::new();
    assert_eq!(
        gen_schema_impl(&mut registry, &root, "#/Pet", ""),
        Ok(model(
            "Pet",
            "pub struct Pet { pub pet_id: i32, pub name: String, pub photo_urls: Vec<String>, \
             pub category: PetCategory, }"
        ))
    );
    assert_eq!(
        registered(&registry),
        vec![pair("#/Pet/properties/category", "PetCategory"), pair("#/Pet", "Pet")]
    );
    assert_eq!(
        registry.get("#/Pet/properties/category").unwrap().definition,
        "pub struct PetCategory { pub name: String, }"
    );
}

#[test]
fn base_name_qualifies_the_type() {
    let root = object(vec![("Pet", record(vec![("id", of_type("integer"))]))]);
    let mut registry = TypeRegistry::new();
    assert_eq!(
        gen_schema_impl(&mut registry, &root, "#/Pet", "store"),
        Ok(model("StorePet", "pub struct StorePet { pub id: i32, }"))
    );
}

#[test]
fn naming_hint_comes_before_the_pointer() {
    let root = object(vec![(
        "pet_v2",
        object(vec![
            ("type", text("object")),
            ("properties", object(vec![])),
            ("xml", object(vec![("name", text("animal"))])),
        ]),
    )]);
    let mut registry = TypeRegistry::new();
    assert_eq!(
        gen_schema_impl(&mut registry, &root, "#/pet_v2", ""),
        Ok(model("Animal", "pub struct Animal { }"))
    );
}

#[test]
fn same_pointer_twice_gives_the_same_declaration() {
    let root = object(vec![
        ("Pet", record(vec![("tag", pointer("#/Tag"))])),
        ("Tag", record(vec![("name", of_type("string"))])),
        ("tags", object(vec![("type", text("array")), ("items", pointer("#/Tag"))])),
    ]);
    let mut registry = TypeRegistry::new();
    let first = gen_schema_impl(&mut registry, &root, "#/Pet", "");
    let after_first = registered(&registry);
    let second = gen_schema_impl(&mut registry, &root, "#/Pet", "");
    assert_eq!(first, second);
    assert_eq!(first, Ok(model("Pet", "pub struct Pet { pub tag: Tag, }")));
    assert_eq!(registered(&registry), after_first);
    assert_eq!(after_first, vec![pair("#/Tag", "Tag"), pair("#/Pet", "Pet")]);

    // a pointer that was declared on the way is answered from the registry
    assert_eq!(
        gen_schema_impl(&mut registry, &root, "#/Tag", "other"),
        Ok(model("Tag", "pub struct Tag { pub name: String, }"))
    );
    let array_first = gen_schema_impl(&mut registry, &root, "#/tags", "");
    let array_second = gen_schema_impl(&mut registry, &root, "#/tags", "");
    assert_eq!(array_first, array_second);
    assert_eq!(array_first, Ok(property("tags", "Vec<Tag>")));
    assert_eq!(registered(&registry), after_first);
}

#[test]
fn cycle_of_two_gives_two_models() {
    let root = object(vec![
        ("A", record(vec![("b", pointer("#/B"))])),
        ("B", record(vec![("a", pointer("#/A"))])),
    ]);
    let mut registry = TypeRegistry::new();
    assert_eq!(
        gen_schema_impl(&mut registry, &root, "#/A", ""),
        Ok(model("A", "pub struct A { pub b: B, }"))
    );
    assert_eq!(registered(&registry), vec![pair("#/B", "B"), pair("#/A", "A")]);
    assert_eq!(registry.get("#/B").unwrap().definition, "pub struct B { pub a: Box<A>, }");
}

#[test]
fn schema_that_holds_itself_is_boxed() {
    let root = object(vec![(
        "Node",
        record(vec![
            ("value", of_type("integer")),
            ("next", pointer("#/Node")),
            ("children", object(vec![("type", text("array")), ("items", pointer("#/Node"))])),
        ]),
    )]);
    let mut registry = TypeRegistry::new();
    assert_eq!(
        gen_schema_impl(&mut registry, &root, "#/Node", ""),
        Ok(model(
            "Node",
            "pub struct Node { pub value: i32, pub next: Box<Node>, pub children: Vec<Box<Node>>, }"
        ))
    );
    assert_eq!(registry.len(), 1);
}

#[test]
fn pointers_that_only_point_to_each_other_are_invalid() {
    let root = object(vec![("a", pointer("#/b")), ("b", pointer("#/a"))]);
    let mut registry = TypeRegistry::new();
    assert_eq!(
        gen_schema_impl(&mut registry, &root, "#/a", ""),
        Err(MacroError::InvalidReference("#/a".to_string()))
    );
    assert_eq!(registry.len(), 0);
    // the registry can be used again
    assert_eq!(
        gen_schema_impl(&mut registry, &root, "#/b", ""),
        Err(MacroError::InvalidReference("#/b".to_string()))
    );
}

#[test]
fn pointer_to_a_pointer_is_followed() {
    let root = object(vec![
        ("alias", pointer("#/Pet")),
        ("Pet", record(vec![("id", of_type("integer"))])),
    ]);
    let mut registry = TypeRegistry::new();
    let declared = gen_schema_impl(&mut registry, &root, "#/alias", "");
    assert_eq!(declared, Ok(model("Pet", "pub struct Pet { pub id: i32, }")));
    assert_eq!(registered(&registry), vec![pair("#/Pet", "Pet")]);
    assert_eq!(gen_schema_impl(&mut registry, &root, "#/alias", ""), declared);
    assert_eq!(registry.len(), 1);
}

#[test]
fn not_is_unimplemented() {
    let root = object(vec![
        ("n", object(vec![("not", of_type("string"))])),
        ("Pet", record(vec![("id", of_type("integer")), ("never", pointer("#/n"))])),
    ]);
    let refused = Err(MacroError::UnimplementedFeature("'not' schema".to_string()));
    let mut registry = TypeRegistry::new();
    assert_eq!(gen_schema_impl(&mut registry, &root, "#/n", ""), refused);
    assert_eq!(gen_schema_impl(&mut registry, &root, "#/Pet", ""), refused);
    assert_eq!(registry.len(), 0);
}

#[test]
fn one_of_gives_a_choice_between_its_alternatives() {
    let root = object(vec![
        ("U", object(vec![("oneOf", Node::Array(vec![pointer("#/X"), of_type("string")]))])),
        ("X", record(vec![("id", of_type("integer"))])),
        ("other", record(vec![("x", pointer("#/X"))])),
    ]);
    let mut registry = TypeRegistry::new();
    assert_eq!(
        gen_schema_impl(&mut registry, &root, "#/U", ""),
        Ok(model("U", "pub enum U { U0(X), U1(String), }"))
    );
    assert_eq!(registered(&registry), vec![pair("#/X", "X"), pair("#/U", "U")]);
    assert_eq!(
        gen_schema_impl(&mut registry, &root, "#/other", ""),
        Ok(model("Other", "pub struct Other { pub x: X, }"))
    );
    assert_eq!(
        registered(&registry),
        vec![pair("#/X", "X"), pair("#/U", "U"), pair("#/other", "Other")]
    );
}

#[test]
fn any_of_and_all_of() {
    let root = object(vec![
        ("any", object(vec![("anyOf", Node::Array(vec![of_type("boolean"), of_type("integer")]))])),
        (
            "all",
            object(vec![(
                "allOf",
                Node::Array(vec![pointer("#/X"), record(vec![("extra", of_type("string"))])]),
            )]),
        ),
        ("X", record(vec![("id", of_type("integer"))])),
    ]);
    let mut registry = TypeRegistry::new();
    assert_eq!(
        gen_schema_impl(&mut registry, &root, "#/any", ""),
        Ok(model("Any", "pub enum Any { Any0(bool), Any1(i32), }"))
    );
    assert_eq!(
        gen_schema_impl(&mut registry, &root, "#/all", ""),
        Ok(model("All", "pub struct All { pub all_0: X, pub all_1: AllAll1, }"))
    );
    assert_eq!(
        registry.get("#/all/allOf/1").unwrap().definition,
        "pub struct AllAll1 { pub extra: String, }"
    );
}

#[test]
fn two_pointers_of_one_name_get_two_identifiers() {
    let root = object(vec![
        ("a", object(vec![("Pet", record(vec![("id", of_type("integer"))]))])),
        ("b", object(vec![("Pet", record(vec![("name", of_type("string"))]))])),
    ]);
    let mut registry = TypeRegistry::new();
    assert_eq!(
        gen_schema_impl(&mut registry, &root, "#/a/Pet", ""),
        Ok(model("Pet", "pub struct Pet { pub id: i32, }"))
    );
    assert_eq!(
        gen_schema_impl(&mut registry, &root, "#/b/Pet", ""),
        Ok(model("BPet", "pub struct BPet { pub name: String, }"))
    );
    assert_eq!(registered(&registry), vec![pair("#/a/Pet", "Pet"), pair("#/b/Pet", "BPet")]);
}

#[test]
fn unresolved_pointer_and_malformed_schema() {
    let root = object(vec![
        ("Pet", record(vec![("tag", pointer("#/Tag"))])),
        ("odd", object(vec![("type", text("date"))])),
        ("out", pointer("other.json#/Pet")),
    ]);
    let mut registry = TypeRegistry::new();
    assert_eq!(
        gen_schema_impl(&mut registry, &root, "#/Pet", ""),
        Err(MacroError::InvalidReference("#/Tag".to_string()))
    );
    assert_eq!(
        gen_schema_impl(&mut registry, &root, "#/odd", ""),
        Err(MacroError::InvalidInput(
            "data did not match any variant of untagged enum RefOrObject".to_string()
        ))
    );
    assert_eq!(
        gen_schema_impl(&mut registry, &root, "#/out", ""),
        Err(MacroError::UnimplementedFeature("non-local references are unsupported".to_string()))
    );
    assert_eq!(registry.len(), 0);
}

#[test]
fn long_chain_of_pointers_is_followed() {
    let mut members: Vec<(String, Node)> = Vec::new();
    for i in 0..300 {
        members.push((format!("s{}", i), pointer(&format!("#/s{}", i + 1))));
    }
    members.push(("s300".to_string(), record(vec![("id", of_type("integer"))])));
    let root = Node::Object(
        members.into_iter().map(|(name, value)| Member { name, value }).collect(),
    );
    let mut registry = TypeRegistry::new();
    assert_eq!(
        gen_schema_impl(&mut registry, &root, "#/s0", ""),
        Ok(model("S300", "pub struct S300 { pub id: i32, }"))
    );
    assert_eq!(registered(&registry), vec![pair("#/s300", "S300")]);
    assert_eq!(
        gen_schema_impl(&mut registry, &root, "#/s150", ""),
        Ok(model("S300", "pub struct S300 { pub id: i32, }"))
    );
}

#[test]
fn registry_answers_what_it_holds() {
    let root = object(vec![
        ("Pet", record(vec![("id", of_type("integer"))])),
        ("name", of_type("string")),
    ]);
    let mut registry = TypeRegistry::new();
    assert_eq!(registry.get("#/Pet"), None);
    assert_eq!(registry.answer_to("#/name"), None);
    assert!(!registry.is_taken("Pet"));
    gen_schema_impl(&mut registry, &root, "#/Pet", "").unwrap();
    gen_schema_impl(&mut registry, &root, "#/name", "").unwrap();
    assert_eq!(registry.len(), 1);
    assert_eq!(registry.pointer_at(0), "#/Pet");
    assert_eq!(registry.model_at(0).identifier, "Pet");
    assert_eq!(registry.get("#/Pet").unwrap().definition, "pub struct Pet { pub id: i32, }");
    assert_eq!(registry.get("#/name"), None);
    assert_eq!(registry.answer_to("#/name"), Some(&property("name", "String")));
    assert_eq!(
        registry.answer_to("#/Pet"),
        Some(&model("Pet", "pub struct Pet { pub id: i32, }"))
    );
    assert!(registry.is_taken("Pet"));
    assert!(!registry.is_taken("pet"));
}

#[test]
fn nameless_schemas_get_identifiers() {
    let root = object(vec![
        ("{}", record(vec![("2d", of_type("boolean")), ("//", of_type("string"))])),
        ("9", record(vec![])),
    ]);
    let mut registry = TypeRegistry::new();
    assert_eq!(
        gen_schema_impl(&mut registry, &root, "#/{}", ""),
        Ok(model("Unnamed", "pub struct Unnamed { pub _2d: bool, pub unnamed: String, }"))
    );
    assert_eq!(
        gen_schema_impl(&mut registry, &root, "#/9", ""),
        Ok(model("T9", "pub struct T9 { }"))
    );
}

#[test]
fn third_claim_on_a_name_gets_a_number() {
    let root = object(vec![
        ("a", object(vec![("Pet", record(vec![("id", of_type("integer"))]))])),
        ("b", object(vec![("Pet", record(vec![("name", of_type("string"))]))])),
        ("b_pet", record(vec![])),
        ("b-pet", record(vec![("x", of_type("boolean"))])),
    ]);
    let mut registry = TypeRegistry::new();
    gen_schema_impl(&mut registry, &root, "#/a/Pet", "").unwrap();
    gen_schema_impl(&mut registry, &root, "#/b/Pet", "").unwrap();
    assert_eq!(
        gen_schema_impl(&mut registry, &root, "#/b_pet", ""),
        Ok(model("BPet2", "pub struct BPet2 { }"))
    );
    assert_eq!(
        gen_schema_impl(&mut registry, &root, "#/b-pet", ""),
        Ok(model("BPet3", "pub struct BPet3 { pub x: bool, }"))
    );
    assert_eq!(
        registered(&registry),
        vec![
            pair("#/a/Pet", "Pet"),
            pair("#/b/Pet", "BPet"),
            pair("#/b_pet", "BPet2"),
            pair("#/b-pet", "BPet3"),
        ]
    );
}

#[test]
fn members_of_one_model_are_kept_apart() {
    let root = object(vec![
        (
            "Pet",
            record(vec![
                ("petId", of_type("integer")),
                ("pet_id", of_type("string")),
                ("type", of_type("string")),
                ("PetID", of_type("boolean")),
                ("pet_id2", of_type("boolean")),
            ]),
        ),
        ("U", object(vec![("oneOf", Node::Array(vec![of_type("string"), of_type("integer")]))])),
    ]);
    let mut registry = TypeRegistry::new();
    assert_eq!(
        gen_schema_impl(&mut registry, &root, "#/Pet", ""),
        Ok(model(
            "Pet",
            "pub struct Pet { pub pet_id: i32, pub pet_id2: String, pub type_: String, \
             pub pet_id3: bool, pub pet_id22: bool, }"
        ))
    );
    assert_eq!(
        gen_schema_impl(&mut registry, &root, "#/U", ""),
        Ok(model("U", "pub enum U { U0(String), U1(i32), }"))
    );
}

#[test]
fn keyword_is_no_name_of_a_type() {
    let root = object(vec![("self", record(vec![("fn", of_type("integer"))]))]);
    let mut registry = TypeRegistry::new();
    assert_eq!(
        gen_schema_impl(&mut registry, &root, "#/self", ""),
        Ok(model("Self_", "pub struct Self_ { pub fn_: i32, }"))
    );
}

#[test]
fn pointer_that_leads_to_not_is_refused() {
    let root = object(vec![
        ("first", pointer("#/second")),
        ("second", pointer("#/never")),
        ("never", object(vec![("not", of_type("string"))])),
        ("Pet", record(vec![("id", of_type("integer"))])),
    ]);
    let refused = Err(MacroError::UnimplementedFeature("'not' schema".to_string()));
    let mut registry = TypeRegistry::new();
    gen_schema_impl(&mut registry, &root, "#/Pet", "").unwrap();
    let before = registered(&registry);
    assert_eq!(gen_schema_impl(&mut registry, &root, "#/first", ""), refused);
    assert_eq!(gen_schema_impl(&mut registry, &root, "#/second", ""), refused);
    assert_eq!(gen_schema_impl(&mut registry, &root, "#/never", ""), refused);
    assert_eq!(registered(&registry), before);
    for reference in ["#/first", "#/second", "#/never"] {
        assert_eq!(registry.answer_to(reference), None);
        assert_eq!(registry.get(reference), None);
    }
}

#[test]
fn model_is_not_called_as_the_generated_code_calls_its_own() {
    let root = object(vec![
        ("Error", record(vec![("code", of_type("integer"))])),
        ("reply", record(vec![("error", pointer("#/Error"))])),
    ]);
    let mut registry = TypeRegistry::new();
    assert_eq!(
        gen_schema_impl(&mut registry, &root, "#/reply", ""),
        Ok(model("Reply", "pub struct Reply { pub error: Error_, }"))
    );
    assert_eq!(
        registry.get("#/Error").unwrap().definition,
        "pub struct Error_ { pub code: i32, }"
    );
}

#[test]
fn negation_beside_a_type_is_not_left_out() {
    let root = object(vec![
        ("odd", object(vec![("type", text("string")), ("not", of_type("integer"))])),
        (
            "Pet",
            object(vec![
                ("type", text("object")),
                ("properties", object(vec![("id", of_type("integer"))])),
                ("not", record(vec![])),
            ]),
        ),
        ("list", object(vec![("oneOf", Node::Array(vec![])), ("not", pointer("#/Pet"))])),
    ]);
    let refused = Err(MacroError::UnimplementedFeature("'not' schema".to_string()));
    let mut registry = TypeRegistry::new();
    assert_eq!(gen_schema_impl(&mut registry, &root, "#/odd", ""), refused);
    assert_eq!(gen_schema_impl(&mut registry, &root, "#/Pet", ""), refused);
    assert_eq!(gen_schema_impl(&mut registry, &root, "#/list", ""), refused);
    assert_eq!(registry.len(), 0);
}
