use formsy_cli::client::{
    authorization_value, check_base_url, endpoint_url, has_http_status, is_success_status, ClientError,
};

#[test]
fn endpoint_paths_follow_the_base_url() {
    assert_eq!(endpoint_url("http://127.0.0.1:8080/", "/api/v1/compile"), "http://127.0.0.1:8080/api/v1/compile");
    assert_eq!(endpoint_url("http://host:9000/prefix/", "/api/v1/query"), "http://host:9000/prefix/api/v1/query");
    assert_eq!(endpoint_url("http://host:9000/prefix", "/api/v1/query"), "http://host:9000/prefix/api/v1/query");
    assert_eq!(endpoint_url("http://h:9000/formsy", "api/v1/compile"), "http://h:9000/formsy/api/v1/compile");
    let base = check_base_url("http://h:9000/formsy").expect("base url");
    assert_eq!(endpoint_url(&base, "/api/v1/compile"), "http://h:9000/formsy/api/v1/compile");
}

#[test]
fn base_url_is_read_as_a_url() {
    assert_eq!(check_base_url("http://127.0.0.1:8080"), Ok("http://127.0.0.1:8080/".to_string()));
    match check_base_url("not a url") {
        Err(ClientError::InvalidBaseUrl { base_url, .. }) => assert_eq!(base_url, "not a url"),
        other => panic!("unexpected {other:?}"),
    }
    let message = check_base_url("::").unwrap_err().message();
    let reason = url::Url::parse("::").unwrap_err().to_string();
    assert_eq!(message, format!("invalid --base-url \"::\": {reason}"));
}

#[test]
fn authorization_header_value() {
    assert_eq!(authorization_value(&None), Ok(None));
    assert_eq!(authorization_value(&Some("k-1".to_string())), Ok(Some("Bearer k-1".to_string())));
    assert_eq!(authorization_value(&Some("caf\u{e9}\tx".to_string())), Ok(Some("Bearer caf\u{e9}\tx".to_string())));
    assert_eq!(authorization_value(&Some("bad\nkey".to_string())), Err(ClientError::InvalidApiKey));
    assert_eq!(authorization_value(&Some("del\u{7f}".to_string())), Err(ClientError::InvalidApiKey));
}

#[test]
fn statuses_and_messages() {
    assert!(is_success_status(200));
    assert!(is_success_status(299));
    assert!(!is_success_status(199));
    assert!(!is_success_status(404));
    let error = ClientError::Http {
        path: "/api/v1/query".to_string(),
        status: 404,
        status_text: "404 Not Found".to_string(),
        body: "missing".to_string(),
    };
    assert!(has_http_status(&error, 404));
    assert!(!has_http_status(&error, 500));
    assert_eq!(error.message(), "request to /api/v1/query failed with HTTP 404 Not Found: missing");
    assert_eq!(
        ClientError::Decode { path: "/p".to_string(), reason: "eof".to_string() }.message(),
        "could not decode response from /p as JSON: eof"
    );
    assert_eq!(ClientError::InvalidApiKey.message(), "invalid api key: failed to parse header value");
}
