use auto_api::agnostic::document::{ApiDocument, OperationEntry};
use auto_api::agnostic::operation::{
    build_operation_method, fallback_components, name_operation, DocumentVersion,
    VersionAgnosticOperation,
};
use auto_api::builder::TypeRegistry;
use auto_api::document::{Member, Node};
use auto_api::documentation::{
    generate_api_module_docs, generate_api_operation_docs, DocumentInfo,
};
use auto_api::operation::{generate_operation_method, generate_operation_methods};

fn text(value: &str) -> Node {
    Node::Text(value.to_string())
}

fn object(members: Vec<(&str, Node)>) -> Node {
    Node::Object(
        members
            .into_iter()
            .map(|(name, value)| Member { name: name.to_string(), value })
            .collect(),
    )
}

fn plain() -> VersionAgnosticOperation {
    VersionAgnosticOperation {
        summary: None,
        description: None,
        external_docs: None,
        operation_id: None,
        deprecated: false,
    }
}

fn owned(parts: &[&str]) -> Vec<String> {
    parts.iter().map(|part| part.to_string()).collect()
}

#[test]
fn fallback_name_is_made_of_method_path_and_parameters() {
    assert_eq!(
        fallback_components("GET", "/pets/{id}?ownerId=x"),
        owned(&["get", "pets", "{id}", "ownerId"])
    );
    assert_eq!(name_operation(&None, "GET", "/pets/{id}?ownerId=x"), "get_pets_{id}_ownerId");
}

#[test]
fn query_parameters_keep_operations_apart() {
    let one = name_operation(&None, "get", "/pets?a=x");
    let other = name_operation(&None, "get", "/pets?b=x");
    assert_eq!(one, "get_pets_a");
    assert_eq!(other, "get_pets_b");
    assert_eq!(
        fallback_components("get", "/pets?a=x&b=y&c"),
        owned(&["get", "pets", "a", "b", "c"])
    );
}

#[test]
fn empty_parts_are_left_out() {
    assert_eq!(fallback_components("", ""), Vec::<String>::new());
    assert_eq!(fallback_components("Post", "//a///b/"), owned(&["post", "a", "b"]));
    assert_eq!(fallback_components("get", "/?=x&&y=1"), owned(&["get", "y"]));
    assert_eq!(name_operation(&None, "", "/"), "");
}

#[test]
fn identifier_of_the_operation_is_its_name() {
    assert_eq!(name_operation(&Some("getPetById".to_string()), "get", "/pets/{id}"), "getPetById");
}

#[test]
fn operation_is_read_member_by_member() {
    let node = object(vec![
        ("summary", text("Find pet")),
        ("description", text("Returns a single pet")),
        ("operationId", text("getPetById")),
        ("deprecated", Node::Bool(true)),
        ("externalDocs", object(vec![("url", text("https://example.com/docs"))])),
    ]);
    assert_eq!(
        VersionAgnosticOperation::from(&node),
        VersionAgnosticOperation {
            summary: Some("Find pet".to_string()),
            description: Some("Returns a single pet".to_string()),
            external_docs: Some("https://example.com/docs".to_string()),
            operation_id: Some("getPetById".to_string()),
            deprecated: true,
        }
    );
    let pathless = object(vec![("externalDocs", object(vec![("description", text("more"))]))]);
    assert_eq!(VersionAgnosticOperation::from(&pathless), plain());
}

#[test]
fn deprecated_is_false_unless_the_document_says_so() {
    assert_eq!(VersionAgnosticOperation::from(&object(vec![])), plain());
    let odd = object(vec![("deprecated", text("true")), ("summary", Node::Bool(true))]);
    assert_eq!(VersionAgnosticOperation::from(&odd), plain());
    let not = object(vec![("deprecated", Node::Bool(false))]);
    assert!(!VersionAgnosticOperation::from(&not).deprecated);
    assert!(VersionAgnosticOperation::from(&object(vec![("deprecated", Node::Bool(true))])).deprecated);
}

#[test]
fn method_of_an_operation() {
    let operation = VersionAgnosticOperation {
        summary: Some("Find \"pet\"".to_string()),
        description: Some("Line one\nline two".to_string()),
        external_docs: None,
        operation_id: Some("getPetById".to_string()),
        deprecated: true,
    };
    let mut registry = TypeRegistry::new();
    let method =
        generate_operation_method(&mut registry, "/pets/{id}", "get", &operation).unwrap();
    assert_eq!(method.builder_identifier, "GetPetById");
    assert_eq!(method.function_identifier, "get_pet_by_id");
    assert_eq!(
        method.builder_declaration,
        "#[deprecated] #[doc = \"Find \\\"pet\\\"\\n\\nLine one\\nline two\\n\\n\
         **This operation is deprecated**\"] pub struct GetPetById<'a> { pub client: &'a Client }"
    );
    assert_eq!(
        method.function_declaration,
        "#[deprecated] #[doc = \"Find \\\"pet\\\"\\n\\nLine one\\nline two\\n\\n\
         **This operation is deprecated**\"] pub async fn get_pet_by_id(&self) -> \
         Result<String, Error> { let res = self.inner.request(reqwest::Method::GET, \
         format!(\"{}{}\", &self.base_url, \"/pets/{id}\")).send().await.map_err(|_| \
         Error::Unknown)?; let text = res.text().await.map_err(|_| Error::Unknown)?; Ok(text) }"
    );
    assert_eq!(registry.len(), 0);
}

#[test]
fn method_without_identifier_is_named_by_fallback() {
    let mut registry = TypeRegistry::new();
    let method =
        generate_operation_method(&mut registry, "/pets/{id}?ownerId=x", "GET", &plain()).unwrap();
    assert_eq!(method.function_identifier, "get_pets_id_owner_id");
    assert_eq!(method.builder_identifier, "GetPetsIdOwnerId");
    assert_eq!(
        method.builder_declaration,
        "#[doc = \"\"] pub struct GetPetsIdOwnerId<'a> { pub client: &'a Client }"
    );
    assert_eq!(
        method.function_declaration,
        "#[doc = \"\"] pub async fn get_pets_id_owner_id(&self) -> Result<String, Error> { \
         let res = self.inner.request(reqwest::Method::GET, format!(\"{}{}\", &self.base_url, \
         \"/pets/{id}?ownerId=x\")).send().await.map_err(|_| Error::Unknown)?; let text = \
         res.text().await.map_err(|_| Error::Unknown)?; Ok(text) }"
    );
}

#[test]
fn method_names_are_always_identifiers() {
    let mut registry = TypeRegistry::new();
    let nameless = generate_operation_method(&mut registry, "/", "", &plain()).unwrap();
    assert_eq!(nameless.function_identifier, "unnamed");
    assert_eq!(nameless.builder_identifier, "Unnamed");
    let digits = VersionAgnosticOperation { operation_id: Some("2fa".to_string()), ..plain() };
    let method = generate_operation_method(&mut registry, "/", "get", &digits).unwrap();
    assert_eq!(method.function_identifier, "_2fa");
    assert_eq!(method.builder_identifier, "T2fa");
}

#[test]
fn methods_follow_the_operations() {
    let info = DocumentInfo {
        title: "t".to_string(),
        version: "1".to_string(),
        description: None,
        terms_of_service: None,
    };
    let entry = |path: &str, method: &str| OperationEntry {
        path: path.to_string(),
        method: method.to_string(),
        operation: plain(),
    };
    let api = ApiDocument {
        version: DocumentVersion::V3,
        info,
        base_url: "https://example.com".to_string(),
        operations: vec![entry("/pets", "get"), entry("/pets", "post"), entry("/tags", "get")],
        schemas: vec![],
    };
    let mut registry = TypeRegistry::new();
    let methods = generate_operation_methods(&mut registry, &api).unwrap();
    let names: Vec<&str> = methods.iter().map(|it| it.function_identifier.as_str()).collect();
    assert_eq!(names, vec!["get_pets", "post_pets", "get_tags"]);
}

#[test]
fn request_method_is_written_out() {
    let operation = VersionAgnosticOperation {
        summary: Some("Find pet".to_string()),
        description: None,
        external_docs: Some("https://example.com".to_string()),
        operation_id: None,
        deprecated: false,
    };
    assert_eq!(
        build_operation_method("/pets", "get", operation),
        "#[doc = \"Find pet\\n\\n\\n\\nhttps://example.com\"] pub async fn get_pets(&self) -> \
         Result<String, Error> { let res = self.inner.request(reqwest::Method::GET, \
         format!(\"{}{}\", &self.base_url, \"/pets\")).send().await.map_err(|_| \
         Error::Unknown)?; let text = res.text().await.map_err(|_| Error::Unknown)?; Ok(text) }"
    );
    let deprecated = VersionAgnosticOperation { deprecated: true, ..plain() };
    assert!(build_operation_method("/a", "Post", deprecated)
        .starts_with("#[deprecated] #[doc = \"\\n\\n\\n\\n\"] pub async fn post_a(&self)"));
}

#[test]
fn module_documentation() {
    let mut info = DocumentInfo {
        title: "Petstore".to_string(),
        version: "1.0.7".to_string(),
        description: None,
        terms_of_service: None,
    };
    assert_eq!(generate_api_module_docs(&info), "# Petstore (Version 1.0.7)\n\n");
    info.description = Some("A sample server.".to_string());
    assert_eq!(
        generate_api_module_docs(&info),
        "# Petstore (Version 1.0.7)\n\nA sample server.\n\n"
    );
    info.terms_of_service = Some("http://swagger.io/terms/".to_string());
    assert_eq!(
        generate_api_module_docs(&info),
        "# Petstore (Version 1.0.7)\n\nA sample server.\n\n\
         **[Terms of Service](http://swagger.io/terms/)**"
    );
    info.description = None;
    assert_eq!(
        generate_api_module_docs(&info),
        "# Petstore (Version 1.0.7)\n\n**[Terms of Service](http://swagger.io/terms/)**"
    );
}

#[test]
fn operation_documentation() {
    assert_eq!(generate_api_operation_docs(&plain()), "");
    let operation = VersionAgnosticOperation {
        summary: Some("Find pet".to_string()),
        description: Some("Returns a single pet".to_string()),
        external_docs: Some("not part of it".to_string()),
        operation_id: None,
        deprecated: true,
    };
    assert_eq!(
        generate_api_operation_docs(&operation),
        "Find pet\n\nReturns a single pet\n\n**This operation is deprecated**"
    );
    let only_description =
        VersionAgnosticOperation { description: Some("d".to_string()), ..plain() };
    assert_eq!(generate_api_operation_docs(&only_description), "d\n\n");
}

#[test]
fn methods_of_one_client_are_kept_apart() {
    let info = DocumentInfo {
        title: "t".to_string(),
        version: "1".to_string(),
        description: None,
        terms_of_service: None,
    };
    let entry = |path: &str, method: &str, id: Option<&str>| OperationEntry {
        path: path.to_string(),
        method: method.to_string(),
        operation: VersionAgnosticOperation {
            operation_id: id.map(|it| it.to_string()),
            ..plain()
        },
    };
    let api = ApiDocument {
        version: DocumentVersion::V3,
        info,
        base_url: "https://example.com".to_string(),
        operations: vec![
            entry("/pets", "get", Some("listPets")),
            entry("/animals", "get", Some("listPets")),
            entry("/a_b", "get", None),
            entry("/a/b", "get", None),
            entry("/t", "get", Some("type")),
            entry("/p", "get", Some("Pet")),
            entry("/l", "get", Some("list_pets")),
        ],
        schemas: vec![],
    };
    let root = Node::Object(vec![Member {
        name: "Pet".to_string(),
        value: object(vec![("type", text("object")), ("properties", object(vec![]))]),
    }]);
    let mut registry = TypeRegistry::new();
    auto_api::builder::gen_schema_impl(&mut registry, &root, "#/Pet", "").unwrap();
    let methods = generate_operation_methods(&mut registry, &api).unwrap();
    let functions: Vec<&str> = methods.iter().map(|it| it.function_identifier.as_str()).collect();
    assert_eq!(
        functions,
        vec!["list_pets", "list_pets2", "get_a_b", "get_a_b2", "type_", "pet", "list_pets3"]
    );
    let builders: Vec<&str> = methods.iter().map(|it| it.builder_identifier.as_str()).collect();
    assert_eq!(
        builders,
        vec!["ListPets", "ListPets2", "GetAB", "GetAB2", "Type", "Pet2", "ListPets3"]
    );
    assert!(methods[1].function_declaration.contains("pub async fn list_pets2(&self)"));
    assert!(methods[1].function_declaration.contains("\"/animals\""));
    assert_eq!(registry.len(), 1);
}
