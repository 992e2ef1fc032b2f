use auto_api::agnostic::document::{
    derive_base_url, detect_version, list_operations, list_schemas, normalize, read_info,
};
use auto_api::agnostic::form::check_operation;
use auto_api::agnostic::operation::{DocumentVersion, VersionAgnosticOperation};
use auto_api::document::{Member, Node};
use auto_api::documentation::DocumentInfo;
use auto_api::error::MacroError;

fn text(value: &str) -> Node {
    Node::Text(value.to_string())
}

fn object(members: Vec<(&str, Node)>) -> Node {
    Node::Object(
        members
            .into_iter()
            .map(|(name, value)| Member { name: name.to_string(), value })
            .collect(),
    )
}

fn unsupported() -> MacroError {
    MacroError::InvalidInput(
        "OpenAPI documentation provided is of an unsupported format/version or malformed."
            .to_string(),
    )
}

fn incomplete() -> MacroError {
    MacroError::ConfigurationIncomplete(
        "no base URL can be derived from the document; supply a base URL explicitly".to_string(),
    )
}

fn info() -> Node {
    object(vec![("title", text("Petstore")), ("version", text("1.0"))])
}

fn operation(id: &str) -> Node {
    object(vec![("operationId", text(id))])
}

#[test]
fn grammar_is_told_by_the_version_member() {
    assert_eq!(detect_version(&object(vec![("openapi", text("3.0.2"))])), Some(DocumentVersion::V3));
    assert_eq!(detect_version(&object(vec![("swagger", text("2.0"))])), Some(DocumentVersion::V2));
    assert_eq!(detect_version(&object(vec![("openapi", text("3.1.0"))])), None);
    assert_eq!(detect_version(&object(vec![("swagger", text("1.2"))])), None);
    assert_eq!(detect_version(&object(vec![("openapi", Node::Number("3.0".to_string()))])), None);
    assert_eq!(detect_version(&object(vec![])), None);
    assert_eq!(
        detect_version(&object(vec![("openapi", text("4")), ("swagger", text("2.1"))])),
        Some(DocumentVersion::V2)
    );
}

#[test]
fn info_needs_title_and_version() {
    let full = object(vec![(
        "info",
        object(vec![
            ("title", text("Petstore")),
            ("version", text("1.0")),
            ("description", text("Pets")),
            ("termsOfService", text("http://example.com/terms")),
        ]),
    )]);
    assert_eq!(
        read_info(&full),
        Some(DocumentInfo {
            title: "Petstore".to_string(),
            version: "1.0".to_string(),
            description: Some("Pets".to_string()),
            terms_of_service: Some("http://example.com/terms".to_string()),
        })
    );
    assert_eq!(read_info(&object(vec![("info", object(vec![("title", text("x"))]))])), None);
    assert_eq!(read_info(&object(vec![("info", object(vec![("version", text("x"))]))])), None);
    assert_eq!(read_info(&object(vec![])), None);
    let odd = object(vec![(
        "info",
        object(vec![
            ("title", text("Petstore")),
            ("version", text("1.0")),
            ("description", Node::Bool(true)),
        ]),
    )]);
    assert_eq!(read_info(&odd), None);
}

#[test]
fn base_url_of_a_3_0_document_is_its_first_server() {
    let root = object(vec![(
        "servers",
        Node::Array(vec![
            object(vec![("url", text("https://api.example.com/v1"))]),
            object(vec![("url", text("https://staging.example.com"))]),
        ]),
    )]);
    assert_eq!(
        derive_base_url(DocumentVersion::V3, &root),
        Ok("https://api.example.com/v1".to_string())
    );
    assert_eq!(derive_base_url(DocumentVersion::V3, &object(vec![])), Err(incomplete()));
    assert_eq!(
        derive_base_url(DocumentVersion::V3, &object(vec![("servers", Node::Array(vec![]))])),
        Err(incomplete())
    );
    assert_eq!(
        derive_base_url(
            DocumentVersion::V3,
            &object(vec![("servers", Node::Array(vec![object(vec![])]))])
        ),
        Err(unsupported())
    );
    assert_eq!(
        derive_base_url(DocumentVersion::V3, &object(vec![("servers", text("https://x"))])),
        Err(unsupported())
    );
}

#[test]
fn base_url_of_a_2_x_document_is_put_together() {
    let with = |schemes: Option<Vec<&str>>, base_path: Option<&str>| {
        let mut members = vec![("host", text("petstore.swagger.io"))];
        if let Some(schemes) = schemes {
            members.push(("schemes", Node::Array(schemes.into_iter().map(text).collect())));
        }
        if let Some(base_path) = base_path {
            members.push(("basePath", text(base_path)));
        }
        object(members)
    };
    let v2 = DocumentVersion::V2;
    assert_eq!(
        derive_base_url(v2, &with(Some(vec!["http", "https"]), Some("/v2"))),
        Ok("http://petstore.swagger.io/v2".to_string())
    );
    assert_eq!(
        derive_base_url(v2, &with(None, Some("/v2"))),
        Ok("https://petstore.swagger.io/v2".to_string())
    );
    assert_eq!(
        derive_base_url(v2, &with(Some(vec![]), None)),
        Ok("https://petstore.swagger.io".to_string())
    );
    assert_eq!(
        derive_base_url(v2, &with(Some(vec!["ws", "wss", "https"]), None)),
        Ok("https://petstore.swagger.io".to_string())
    );
    assert_eq!(
        derive_base_url(v2, &with(Some(vec!["ws", "wss"]), Some("/v2"))),
        Err(MacroError::UnimplementedFeature("WebSocket scheme".to_string()))
    );
    assert_eq!(
        derive_base_url(v2, &object(vec![("basePath", text("/v2"))])),
        Err(incomplete())
    );
    assert_eq!(
        derive_base_url(v2, &object(vec![("host", Node::Number("80".to_string()))])),
        Err(unsupported())
    );
    assert_eq!(
        derive_base_url(
            v2,
            &object(vec![("host", text("example.com")), ("basePath", Node::Array(vec![]))])
        ),
        Err(unsupported())
    );
}

#[test]
fn schemes_that_are_no_texts_are_malformed() {
    let v2 = DocumentVersion::V2;
    let with = |schemes: Node| object(vec![("host", text("example.com")), ("schemes", schemes)]);
    assert_eq!(
        derive_base_url(v2, &with(Node::Array(vec![Node::Number("42".to_string())]))),
        Err(unsupported())
    );
    assert_eq!(
        derive_base_url(v2, &with(Node::Array(vec![text("https"), Node::Null]))),
        Err(unsupported())
    );
    assert_eq!(
        derive_base_url(v2, &with(Node::Array(vec![text("ws"), Node::Bool(true)]))),
        Err(unsupported())
    );
    assert_eq!(derive_base_url(v2, &with(text("https"))), Err(unsupported()));
    assert_eq!(
        derive_base_url(v2, &with(Node::Array(vec![text("http")]))),
        Ok("http://example.com".to_string())
    );
}

#[test]
fn operations_are_listed_path_by_path() {
    let paths = object(vec![
        (
            "/pets",
            object(vec![
                ("post", operation("addPet")),
                ("parameters", Node::Array(vec![])),
                ("get", operation("listPets")),
                ("trace", operation("tracePets")),
            ]),
        ),
        ("/pets/{id}", object(vec![("delete", operation("deletePet"))])),
        ("x-odd", text("not an item")),
    ]);
    let root = object(vec![("paths", paths)]);
    let listed = |grammar| -> Vec<(String, String, Option<String>)> {
        list_operations(grammar, &root)
            .unwrap()
            .into_iter()
            .map(|it| (it.path, it.method, it.operation.operation_id))
            .collect()
    };
    let entry = |path: &str, method: &str, id: &str| {
        (path.to_string(), method.to_string(), Some(id.to_string()))
    };
    assert_eq!(
        listed(DocumentVersion::V3),
        vec![
            entry("/pets", "get", "listPets"),
            entry("/pets", "post", "addPet"),
            entry("/pets", "trace", "tracePets"),
            entry("/pets/{id}", "delete", "deletePet"),
        ]
    );
    assert_eq!(
        listed(DocumentVersion::V2),
        vec![
            entry("/pets", "get", "listPets"),
            entry("/pets", "post", "addPet"),
            entry("/pets/{id}", "delete", "deletePet"),
        ]
    );
    assert_eq!(list_operations(DocumentVersion::V3, &object(vec![])), None);
    assert_eq!(
        list_operations(DocumentVersion::V3, &object(vec![("paths", Node::Array(vec![]))])),
        None
    );
}

#[test]
fn schemas_are_indexed_by_pointer() {
    let schemas = || object(vec![("Pet", object(vec![])), ("Tag", object(vec![]))]);
    let v3 = object(vec![("components", object(vec![("schemas", schemas())]))]);
    assert_eq!(
        list_schemas(DocumentVersion::V3, &v3),
        Some(vec!["#/components/schemas/Pet".to_string(), "#/components/schemas/Tag".to_string()])
    );
    let v2 = object(vec![("definitions", schemas())]);
    assert_eq!(
        list_schemas(DocumentVersion::V2, &v2),
        Some(vec!["#/definitions/Pet".to_string(), "#/definitions/Tag".to_string()])
    );
    assert_eq!(list_schemas(DocumentVersion::V2, &v3), Some(Vec::<String>::new()));
    assert_eq!(list_schemas(DocumentVersion::V3, &v2), Some(Vec::<String>::new()));
    let odd = object(vec![("definitions", Node::Array(vec![]))]);
    assert_eq!(list_schemas(DocumentVersion::V2, &odd), None);
    assert_eq!(list_schemas(DocumentVersion::V3, &odd), Some(Vec::<String>::new()));
}

#[test]
fn document_is_normalized_or_refused() {
    let servers = Node::Array(vec![object(vec![("url", text("https://example.com"))])]);
    let paths = object(vec![("/pets", object(vec![("get", operation("listPets"))]))]);
    let whole = object(vec![
        ("openapi", text("3.0.0")),
        ("info", info()),
        ("servers", servers),
        ("paths", paths),
    ]);
    let api = normalize(&whole).unwrap();
    assert_eq!(api.version, DocumentVersion::V3);
    assert_eq!(api.info.title, "Petstore");
    assert_eq!(api.base_url, "https://example.com");
    assert_eq!(api.operations.len(), 1);
    assert_eq!(api.schemas, Vec::<String>::new());

    let without = |name: &str| match &whole {
        Node::Object(members) => Node::Object(
            members
                .iter()
                .filter(|it| it.name != name)
                .map(|it| Member {
                    name: it.name.clone(),
                    value: match &it.value {
                        Node::Text(value) => Node::Text(value.clone()),
                        Node::Object(_) if it.name == "info" => info(),
                        Node::Object(_) => {
                            object(vec![("/pets", object(vec![("get", operation("listPets"))]))])
                        }
                        _ => Node::Array(vec![object(vec![("url", text("https://example.com"))])]),
                    },
                })
                .collect(),
        ),
        _ => Node::Null,
    };
    assert_eq!(normalize(&without("openapi")), Err(unsupported()));
    assert_eq!(normalize(&without("info")), Err(unsupported()));
    assert_eq!(normalize(&without("servers")), Err(incomplete()));
    assert_eq!(normalize(&without("paths")), Err(unsupported()));
}

#[test]
fn operation_written_another_way_is_no_operation() {
    assert!(check_operation(&operation("listPets")));
    assert!(check_operation(&object(vec![])));
    assert!(!check_operation(&text("listPets")));
    assert!(!check_operation(&object(vec![("deprecated", text("yes"))])));
    assert!(!check_operation(&object(vec![("summary", Node::Null)])));
    assert!(!check_operation(&object(vec![("operationId", Node::Array(vec![]))])));
    let docs = object(vec![("externalDocs", object(vec![("description", text("more"))]))]);
    assert!(!check_operation(&docs));
    assert!(VersionAgnosticOperation::read(&docs).is_none());
    let read = VersionAgnosticOperation::read(&operation("listPets")).unwrap();
    assert_eq!(read.operation_id, Some("listPets".to_string()));
}

#[test]
fn paths_written_another_way_are_malformed() {
    let with = |item: Node| object(vec![("paths", object(vec![("/pets", item)]))]);
    let v3 = DocumentVersion::V3;
    assert_eq!(list_operations(v3, &with(text("not an item"))), None);
    assert_eq!(list_operations(v3, &with(object(vec![("get", Node::Array(vec![]))]))), None);
    assert_eq!(
        list_operations(
            v3,
            &with(object(vec![("get", object(vec![("deprecated", text("yes"))]))]))
        ),
        None
    );
    let traced = with(object(vec![("trace", text("odd"))]));
    assert_eq!(list_operations(v3, &traced), None);
    assert_eq!(list_operations(DocumentVersion::V2, &traced).map(|it| it.len()), Some(0));
    assert_eq!(list_operations(v3, &with(object(vec![]))).map(|it| it.len()), Some(0));
}

#[test]
fn malformed_document_is_not_normalized() {
    let whole = |paths: Node, definitions: Node| {
        object(vec![
            ("swagger", text("2.0")),
            ("info", info()),
            ("host", text("example.com")),
            ("paths", paths),
            ("definitions", definitions),
        ])
    };
    let paths = || object(vec![("/pets", object(vec![("get", operation("listPets"))]))]);
    let api = normalize(&whole(paths(), object(vec![("Pet", object(vec![]))]))).unwrap();
    assert_eq!(api.base_url, "https://example.com");
    assert_eq!(api.schemas, vec!["#/definitions/Pet".to_string()]);
    assert_eq!(normalize(&whole(paths(), text("none"))), Err(unsupported()));
    assert_eq!(
        normalize(&whole(object(vec![("/pets", Node::Null)]), object(vec![]))),
        Err(unsupported())
    );
}
