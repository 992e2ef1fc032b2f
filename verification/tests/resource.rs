use auto_api::error::{diagnose, Diagnostic, Error, ErrorKind, MacroError};
use auto_api::utils::{locate_resource, resource_file_path, ResourceLocation};

#[test]
fn protocol_tells_how_a_resource_is_read() {
    assert_eq!(
        locate_resource("https://petstore.swagger.io/v2/swagger.json"),
        Ok(ResourceLocation::Remote { url: "https://petstore.swagger.io/v2/swagger.json".into() })
    );
    assert_eq!(
        locate_resource("http://localhost:8080/api.json"),
        Ok(ResourceLocation::Remote { url: "http://localhost:8080/api.json".into() })
    );
    assert_eq!(
        locate_resource("file://openapi/petstore.json"),
        Ok(ResourceLocation::File { path: "openapi/petstore.json".into() })
    );
    assert_eq!(
        locate_resource("file:///etc/api.json"),
        Ok(ResourceLocation::File { path: "/etc/api.json".into() })
    );
    assert_eq!(
        locate_resource("file://a://b"),
        Ok(ResourceLocation::File { path: "a://b".into() })
    );
}

#[test]
fn other_protocols_are_unsupported() {
    assert_eq!(
        locate_resource("ftp://example.com/api.json"),
        Err(MacroError::UnsupportedProtocol("ftp".to_string()))
    );
    assert_eq!(locate_resource("://x"), Err(MacroError::UnsupportedProtocol("".to_string())));
    assert_eq!(
        locate_resource("HTTP://example.com"),
        Err(MacroError::UnsupportedProtocol("HTTP".to_string()))
    );
}

#[test]
fn uri_without_separator_is_malformed() {
    let malformed = Err(MacroError::InvalidInput(
        "Resource URI must contain '://' splitting protocol and path".to_string(),
    ));
    assert_eq!(locate_resource("openapi/petstore.json"), malformed);
    assert_eq!(locate_resource("file:/x"), malformed);
    assert_eq!(locate_resource(""), malformed);
    assert_eq!(locate_resource(":/"), malformed);
}

#[test]
fn relative_paths_are_looked_for_under_the_project() {
    assert_eq!(resource_file_path("/home/me/project", "openapi/a.json"), "/home/me/project/openapi/a.json");
    assert_eq!(resource_file_path("/home/me/project", "/etc/a.json"), "//etc/a.json");
    assert_eq!(resource_file_path("", "a.json"), "/a.json");
}

#[test]
fn errors_are_reported_in_a_sentence() {
    assert_eq!(
        MacroError::InvalidInput("x".to_string()).message(),
        "Invalid input was provided. x"
    );
    assert_eq!(
        MacroError::InvalidReference("#/a".to_string()).message(),
        "The reference ($ref) '#/a' is invalid."
    );
    assert_eq!(
        MacroError::UnsupportedProtocol("ftp".to_string()).message(),
        "The protocol 'ftp' is unsupported"
    );
    assert_eq!(
        MacroError::ResourceLoadingFailed("gone".to_string()).message(),
        "Failed to load resource. gone"
    );
    assert_eq!(
        MacroError::UnimplementedFeature("'not' schema".to_string()).message(),
        "The 'not' schema feature of the OpenAPI spec is currently unimplemented in AutoAPI"
    );
    assert_eq!(
        MacroError::ConfigurationIncomplete("no server".to_string()).message(),
        "The configuration is incomplete. no server"
    );
    assert_eq!(MacroError::Unknown.message(), "An unknown error ocurred");
    assert_eq!(Error::Unknown.message(), "An unknown error ocurred");
}

#[test]
fn error_is_made_of_kind_and_detail() {
    for kind in [
        ErrorKind::InvalidInput,
        ErrorKind::InvalidReference,
        ErrorKind::UnsupportedProtocol,
        ErrorKind::ResourceLoadingFailed,
        ErrorKind::UnimplementedFeature,
        ErrorKind::ConfigurationIncomplete,
    ] {
        let error = MacroError::new(kind, "detail");
        assert_eq!(error.kind(), kind);
        assert_eq!(error.detail(), "detail");
    }
    assert_eq!(MacroError::new(ErrorKind::Unknown, "dropped"), MacroError::Unknown);
    assert_eq!(MacroError::Unknown.detail(), "");
    assert_eq!(
        MacroError::new(ErrorKind::InvalidReference, "#/a"),
        MacroError::InvalidReference("#/a".to_string())
    );
}

#[test]
fn failure_is_shown_with_what_may_help() {
    let uri = "file://openapi/petstore.json";
    assert_eq!(
        diagnose(&MacroError::ResourceLoadingFailed("gone".to_string()), uri),
        Diagnostic {
            subject: uri.to_string(),
            message: "Failed to load resource. gone".to_string(),
            note: Some(
                "If you are using a remote resource an internet connection is required to compile"
                    .to_string()
            ),
            help: None,
        }
    );
    let malformed = diagnose(&MacroError::InvalidInput("bad".to_string()), uri);
    assert_eq!(malformed.note, Some("Auto API supports OpenAPI versions 2.x and 3.0".to_string()));
    assert_eq!(
        malformed.help,
        Some(
            "Try opening file://openapi/petstore.json in a web browser to verify it's responding \
             with the correct documentation"
                .to_string()
        )
    );
    let incomplete = diagnose(&MacroError::ConfigurationIncomplete("none".to_string()), uri);
    assert_eq!(incomplete.note, None);
    assert_eq!(incomplete.help, Some("Supply a base URL explicitly".to_string()));
    let reference = diagnose(&MacroError::InvalidReference("#/a".to_string()), uri);
    assert_eq!((reference.note, reference.help), (None, None));
    assert_eq!(reference.subject, uri);
}
