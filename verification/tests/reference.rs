use auto_api::document::{Member, Node};
use auto_api::error::MacroError;
use auto_api::model::{BasicSchema, RefOrObject, Schema};
use auto_api::reference::{expand_reference, expand_typed_reference};

fn text(value: &str) -> Node {
    Node::Text(value.to_string())
}

fn number(value: &str) -> Node {
    Node::Number(value.to_string())
}

fn object(members: Vec<(&str, Node)>) -> Node {
    Node::Object(
        members
            .into_iter()
            .map(|(name, value)| Member { name: name.to_string(), value })
            .collect(),
    )
}

fn contacts() -> Node {
    object(vec![
        ("day", number("2")),
        (
            "contacts",
            object(vec![
                ("email", text("testing@example.com")),
                ("phone", text("+1 800-729-4625")),
                (
                    "address",
                    object(vec![
                        ("country", text("United States")),
                        ("zip", number("58205")),
                        ("street", text("6294 Bodega Street")),
                    ]),
                ),
            ]),
        ),
    ])
}

#[test]
fn test_expand_reference() {
    let input = contacts();

    let res = expand_reference(&input, "#/day").unwrap();
    assert_eq!(res, &Node::Number("2".into()));

    let res = expand_reference(&input, "#/contacts/address/zip").unwrap();
    assert_eq!(res, &Node::Number("58205".into()));

    let res = expand_reference(&input, "#/contacts/phone").unwrap();
    assert_eq!(res, &Node::Text("+1 800-729-4625".into()));
}

#[test]
fn missing_segment_names_the_pointer() {
    let input = contacts();
    assert_eq!(
        expand_reference(&input, "#/missing/x"),
        Err(MacroError::InvalidReference("#/missing/x".to_string()))
    );
    assert_eq!(
        expand_reference(&input, "#/contacts/zip"),
        Err(MacroError::InvalidReference("#/contacts/zip".to_string()))
    );
}

#[test]
fn segment_below_a_scalar_is_invalid() {
    let input = contacts();
    assert_eq!(
        expand_reference(&input, "#/day/hour"),
        Err(MacroError::InvalidReference("#/day/hour".to_string()))
    );
    assert_eq!(
        expand_reference(&input, "#/contacts/phone/"),
        Err(MacroError::InvalidReference("#/contacts/phone/".to_string()))
    );
}

#[test]
fn pointer_out_of_the_document_is_not_followed() {
    let input = contacts();
    let refused =
        Err(MacroError::UnimplementedFeature("non-local references are unsupported".to_string()));
    assert_eq!(expand_reference(&input, "other.yaml#/contacts"), refused);
    assert_eq!(expand_reference(&input, "/contacts"), refused);
    assert_eq!(expand_reference(&input, ""), refused);
}

#[test]
fn bare_hash_names_the_root() {
    let input = contacts();
    assert_eq!(expand_reference(&input, "#"), Ok(&input));
}

#[test]
fn first_of_two_members_of_one_name_counts() {
    let input = object(vec![("a", number("1")), ("a", number("2"))]);
    assert_eq!(expand_reference(&input, "#/a"), Ok(&Node::Number("1".to_string())));
    assert_eq!(input.get("a"), Some(&Node::Number("1".to_string())));
    assert_eq!(input.get("b"), None);
}

#[test]
fn resolving_twice_gives_the_same_node() {
    let input = contacts();
    let first = expand_reference(&input, "#/contacts/address");
    let second = expand_reference(&input, "#/contacts/address");
    assert_eq!(first, second);
    assert!(first.is_ok());
}

#[test]
fn schema_is_read_where_the_pointer_leads() {
    let input = object(vec![
        ("Pet", object(vec![("type", text("string"))])),
        ("alias", object(vec![("$ref", text("#/Pet"))])),
        ("day", number("2")),
    ]);
    assert_eq!(
        expand_typed_reference(&input, "#/Pet"),
        Ok(RefOrObject::Object(Schema::Basic(BasicSchema::String {})))
    );
    assert_eq!(
        expand_typed_reference(&input, "#/alias"),
        Ok(RefOrObject::Ref { ref_path: "#/Pet".to_string() })
    );
    assert_eq!(
        expand_typed_reference(&input, "#/day"),
        Err(MacroError::InvalidInput(
            "data did not match any variant of untagged enum RefOrObject".to_string()
        ))
    );
    assert_eq!(
        expand_typed_reference(&input, "#/missing"),
        Err(MacroError::InvalidReference("#/missing".to_string()))
    );
    assert_eq!(
        expand_typed_reference(&input, "Pet"),
        Err(MacroError::UnimplementedFeature("non-local references are unsupported".to_string()))
    );
}

#[test]
fn reference_written_another_way_than_a_pointer_is_invalid() {
    let input = object(vec![("b", number("1")), ("a", object(vec![("b", number("2"))]))]);
    assert_eq!(expand_reference(&input, "#/b"), Ok(&Node::Number("1".to_string())));
    for reference in ["#a/b", "#b", "#x/a/b", "##/b"] {
        assert_eq!(
            expand_reference(&input, reference),
            Err(MacroError::InvalidReference(reference.to_string()))
        );
        assert_eq!(
            expand_typed_reference(&input, reference),
            Err(MacroError::InvalidReference(reference.to_string()))
        );
    }
}
