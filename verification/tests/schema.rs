use auto_api::document::{Member, Node};
use auto_api::model::{read_schema, BasicSchema, Property, RefOrObject, Schema, UnionSchema};

fn text(value: &str) -> Node {
    Node::Text(value.to_string())
}

fn object(members: Vec<(&str, Node)>) -> Node {
    Node::Object(
        members
            .into_iter()
            .map(|(name, value)| Member { name: name.to_string(), value })
            .collect(),
    )
}

fn pointer(to: &str) -> RefOrObject<Schema> {
    RefOrObject::Ref { ref_path: to.to_string() }
}

fn basic(schema: BasicSchema) -> RefOrObject<Schema> {
    RefOrObject::Object(Schema::Basic(schema))
}

#[test]
fn deserializing_basic_schema() {
    let input = object(vec![
        ("type", text("array")),
        (
            "items",
            object(vec![(
                "oneOf",
                Node::Array(vec![
                    object(vec![("$ref", text("#/hi/hello/hola"))]),
                    object(vec![("type", text("string"))]),
                    object(vec![
                        ("type", text("object")),
                        (
                            "properties",
                            object(vec![
                                ("welcomeMessage", object(vec![("type", text("string"))])),
                                ("welcomeType", object(vec![("$ref", text("#/hi/hello/hola"))])),
                            ]),
                        ),
                    ]),
                ]),
            )]),
        ),
    ]);

    let output = read_schema(&input).unwrap();

    println!("{:#?}", output);

    let expected = basic(BasicSchema::Array {
        items: Box::new(RefOrObject::Object(Schema::Union(UnionSchema::OneOf {
            one_of: vec![
                pointer("#/hi/hello/hola"),
                basic(BasicSchema::String {}),
                basic(BasicSchema::Object {
                    properties: vec![
                        Property {
                            name: "welcomeMessage".to_string(),
                            schema: basic(BasicSchema::String {}),
                        },
                        Property {
                            name: "welcomeType".to_string(),
                            schema: pointer("#/hi/hello/hola"),
                        },
                    ],
                }),
            ],
        }))),
    });
    assert_eq!(output, expected);
}

#[test]
fn primitive_types_are_read_by_name() {
    for (name, schema) in [
        ("string", BasicSchema::String {}),
        ("number", BasicSchema::Number {}),
        ("integer", BasicSchema::Integer {}),
        ("boolean", BasicSchema::Boolean {}),
    ] {
        let node = object(vec![("description", text("anything")), ("type", text(name))]);
        assert_eq!(read_schema(&node), Some(basic(schema)));
    }
}

#[test]
fn unions_are_read_in_their_order() {
    let alternatives = || Node::Array(vec![object(vec![("type", text("integer"))])]);
    let list = || vec![basic(BasicSchema::Integer {})];
    assert_eq!(
        read_schema(&object(vec![("anyOf", alternatives()), ("oneOf", alternatives())])),
        Some(RefOrObject::Object(Schema::Union(UnionSchema::OneOf { one_of: list() })))
    );
    assert_eq!(
        read_schema(&object(vec![("allOf", alternatives()), ("anyOf", alternatives())])),
        Some(RefOrObject::Object(Schema::Union(UnionSchema::AnyOf { any_of: list() })))
    );
    assert_eq!(
        read_schema(&object(vec![("allOf", alternatives())])),
        Some(RefOrObject::Object(Schema::Union(UnionSchema::AllOf { all_of: list() })))
    );
    assert_eq!(
        read_schema(&object(vec![("not", object(vec![("type", text("string"))]))])),
        Some(RefOrObject::Object(Schema::Union(UnionSchema::Not {
            not: Box::new(basic(BasicSchema::String {}))
        })))
    );
}

#[test]
fn type_comes_before_union_and_pointer() {
    let node = object(vec![
        ("$ref", text("#/a")),
        ("oneOf", Node::Array(vec![])),
        ("type", text("boolean")),
    ]);
    assert_eq!(read_schema(&node), Some(basic(BasicSchema::Boolean {})));
    let node = object(vec![("$ref", text("#/a")), ("oneOf", Node::Array(vec![]))]);
    assert_eq!(
        read_schema(&node),
        Some(RefOrObject::Object(Schema::Union(UnionSchema::OneOf { one_of: vec![] })))
    );
}

#[test]
fn type_that_does_not_fit_falls_through() {
    // an array without items is no array, but the pointer beside it is read
    let node = object(vec![("type", text("array")), ("$ref", text("#/a"))]);
    assert_eq!(read_schema(&node), Some(pointer("#/a")));
    let node = object(vec![("type", text("object")), ("properties", Node::Array(vec![]))]);
    assert_eq!(read_schema(&node), None);
    let node = object(vec![("type", text("date"))]);
    assert_eq!(read_schema(&node), None);
}

#[test]
fn what_is_no_schema_is_refused() {
    assert_eq!(read_schema(&Node::Null), None);
    assert_eq!(read_schema(&text("string")), None);
    assert_eq!(read_schema(&object(vec![])), None);
    assert_eq!(read_schema(&object(vec![("$ref", Node::Bool(true))])), None);
    assert_eq!(
        read_schema(&object(vec![("oneOf", Node::Array(vec![Node::Null]))])),
        None
    );
}

#[test]
fn negation_comes_before_what_else_a_node_holds() {
    let negated = |inner: RefOrObject<Schema>| {
        RefOrObject::Object(Schema::Union(UnionSchema::Not { not: Box::new(inner) }))
    };
    let node = object(vec![("type", text("string")), ("not", object(vec![("type", text("integer"))]))]);
    assert_eq!(read_schema(&node), Some(negated(basic(BasicSchema::Integer {}))));
    let node = object(vec![("$ref", text("#/a")), ("not", object(vec![("$ref", text("#/b"))]))]);
    assert_eq!(read_schema(&node), Some(negated(pointer("#/b"))));
    let node = object(vec![("type", text("string")), ("not", text("integer"))]);
    assert_eq!(read_schema(&node), None);
}
