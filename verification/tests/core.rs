use releasy_client::{
    AdminCreateCustomerRequest, Auth, Client, DownloadTokenRequest, Error, JsonValue,
    TransportError, UserCreateRequest, bool_str, i32_to_dec, i64_to_dec, json_to_string,
    normalize_base_url, u16_to_dec, u64_to_dec,
};
use releasy_client::classify::{
    classify_document, classify_empty, classify_redirect, classify_upload, error_from_parts,
};
use releasy_client::json::{clone_json, parse_json_text};
use releasy_client::request::Method;

fn obj(entries: Vec<(&str, JsonValue)>) -> JsonValue {
    JsonValue::Obj(
        entries
            .into_iter()
            .map(|(k, v)| (k.to_string(), v))
            .collect(),
    )
}

fn s(text: &str) -> JsonValue {
    JsonValue::Str(text.to_string())
}

#[test]
fn base_url_normalization() {
    assert!(matches!(
        normalize_base_url(""),
        Err(Error::InvalidBaseUrl(u)) if u.is_empty()
    ));
    assert!(matches!(
        normalize_base_url("  "),
        Err(Error::InvalidBaseUrl(u)) if u == "  "
    ));
    assert!(matches!(
        normalize_base_url("ftp://host"),
        Err(Error::InvalidBaseUrl(u)) if u == "ftp://host"
    ));
    assert_eq!(normalize_base_url("https://host/").unwrap(), "https://host");
    assert_eq!(
        normalize_base_url("  https://host//  ").unwrap(),
        "https://host"
    );
    assert_eq!(normalize_base_url("http://h").unwrap(), "http://h");
    assert!(normalize_base_url("http://").is_err());
}

#[test]
fn normalization_trims_unicode_whitespace() {
    assert_eq!(
        normalize_base_url("\u{000B}https://host").unwrap(),
        "https://host"
    );
    assert_eq!(
        normalize_base_url("\u{00A0}https://host/\u{3000}").unwrap(),
        "https://host"
    );
    assert!(matches!(
        normalize_base_url("\u{2003}\u{2028}"),
        Err(Error::InvalidBaseUrl(_))
    ));
}

#[test]
fn client_construction_rejects_bad_base_urls() {
    assert!(Client::new("", Auth::NoAuth).is_err());
    assert!(Client::new("ftp://host", Auth::NoAuth).is_err());
    let client = Client::new("https://host/", Auth::NoAuth).unwrap();
    assert_eq!(client.health_check_request().url, "https://host/health");
}

#[test]
fn decimal_rendering() {
    assert_eq!(u64_to_dec(0), "0");
    assert_eq!(u64_to_dec(1700000000), "1700000000");
    assert_eq!(u64_to_dec(u64::MAX), "18446744073709551615");
    assert_eq!(i64_to_dec(-123), "-123");
    assert_eq!(i64_to_dec(i64::MIN), "-9223372036854775808");
    assert_eq!(i64_to_dec(i64::MAX), "9223372036854775807");
    assert_eq!(i32_to_dec(-1), "-1");
    assert_eq!(u16_to_dec(503), "503");
    assert_eq!(bool_str(true), "true");
    assert_eq!(bool_str(false), "false");
}

#[test]
fn query_values_are_percent_encoded() {
    let client = Client::new("http://server", Auth::NoAuth).unwrap();
    let query = releasy_client::AdminCustomerListQuery {
        customer_id: None,
        name: Some("a b&c=d".to_string()),
        plan: None,
        limit: None,
        offset: None,
    };
    let request = client.list_customers_request(&query);
    assert_eq!(
        request.url,
        "http://server/v1/admin/customers?name=a%20b%26c%3Dd"
    );
}

#[test]
fn non_ascii_query_values_are_utf8_percent_encoded() {
    let client = Client::new("http://server", Auth::NoAuth).unwrap();
    let query = releasy_client::AdminCustomerListQuery {
        customer_id: None,
        name: Some("M\u{00FC}ller \u{4E2D}".to_string()),
        plan: None,
        limit: None,
        offset: None,
    };
    let request = client.list_customers_request(&query);
    assert_eq!(
        request.url,
        "http://server/v1/admin/customers?name=M%C3%BCller%20%E4%B8%AD"
    );
}

#[test]
fn absent_filters_leave_the_query_empty() {
    let client = Client::new("http://server", Auth::NoAuth).unwrap();
    let query = releasy_client::AdminCustomerListQuery::default();
    let request = client.list_customers_request(&query);
    assert_eq!(request.url, "http://server/v1/admin/customers");
}

#[test]
fn exactly_one_auth_header_per_variant() {
    let names = ["x-releasy-admin-key", "x-releasy-api-key", "authorization"];
    let cases = vec![
        (Auth::NoAuth, None),
        (
            Auth::AdminKey("k1".to_string()),
            Some(("x-releasy-admin-key", "k1".to_string())),
        ),
        (
            Auth::ApiKey("k2".to_string()),
            Some(("x-releasy-api-key", "k2".to_string())),
        ),
        (
            Auth::OperatorJwt("tok".to_string()),
            Some(("authorization", "Bearer tok".to_string())),
        ),
    ];
    for (auth, expected) in cases {
        let client = Client::new("http://server", auth).unwrap();
        let request = client.health_check_request();
        let credentials: Vec<_> = request
            .headers
            .iter()
            .filter(|(k, _)| names.contains(&k.as_str()))
            .collect();
        match expected {
            None => assert!(credentials.is_empty()),
            Some((name, value)) => {
                assert_eq!(credentials.len(), 1);
                assert_eq!(credentials[0].0, name);
                assert_eq!(credentials[0].1, value);
            }
        }
    }
}

#[test]
fn user_agent_and_idempotency_headers() {
    let client = Client::builder("http://server", Auth::NoAuth)
        .unwrap()
        .user_agent("releasy-test/1.0")
        .build()
        .unwrap();
    let request = client.admin_create_customer_request(
        &AdminCreateCustomerRequest {
            name: "Acme".to_string(),
            plan: None,
        },
        Some("idem-123"),
    );
    let headers: Vec<(&str, &str)> = request
        .headers
        .iter()
        .map(|(k, v)| (k.as_str(), v.as_str()))
        .collect();
    assert_eq!(
        headers,
        vec![
            ("accept", "application/json"),
            ("user-agent", "releasy-test/1.0"),
            ("idempotency-key", "idem-123"),
        ]
    );
    assert_eq!(request.body.as_deref(), Some(r#"{"name":"Acme"}"#));
}

#[test]
fn building_twice_is_byte_identical() {
    let client = Client::new("http://server", Auth::AdminKey("k".to_string())).unwrap();
    let body = UserCreateRequest {
        email: "alice".to_string(),
        customer_id: "cust-1".to_string(),
        display_name: Some("Alice".to_string()),
        groups: Some(vec!["g1".to_string(), "g2".to_string()]),
        metadata: Some(obj(vec![("note", s("x"))])),
        status: None,
    };
    let body_again = UserCreateRequest {
        email: "alice".to_string(),
        customer_id: "cust-1".to_string(),
        display_name: Some("Alice".to_string()),
        groups: Some(vec!["g1".to_string(), "g2".to_string()]),
        metadata: Some(obj(vec![("note", s("x"))])),
        status: None,
    };
    let first = client.create_user_request(&body, Some("key-1"));
    let second = client.create_user_request(&body_again, Some("key-1"));
    assert_eq!(first.method, second.method);
    assert_eq!(first.url, second.url);
    assert_eq!(first.headers, second.headers);
    assert_eq!(first.body, second.body);
}

#[test]
fn with_auth_swaps_only_the_credential() {
    let client = Client::new("http://server", Auth::AdminKey("admin".to_string())).unwrap();
    let swapped = client.with_auth(Auth::ApiKey("api".to_string()));
    let before = client.health_check_request();
    let after = swapped.health_check_request();
    assert_eq!(before.url, after.url);
    assert!(before
        .headers
        .iter()
        .any(|(k, v)| k == "x-releasy-admin-key" && v == "admin"));
    assert!(after
        .headers
        .iter()
        .any(|(k, v)| k == "x-releasy-api-key" && v == "api"));
    assert!(!after.headers.iter().any(|(k, _)| k == "x-releasy-admin-key"));
    let original_again = client.health_check_request();
    assert!(original_again
        .headers
        .iter()
        .any(|(k, _)| k == "x-releasy-admin-key"));
}

#[test]
fn serialized_request_round_trips_through_the_parser() {
    let body = UserCreateRequest {
        email: "alice@example.com".to_string(),
        customer_id: "cust-1".to_string(),
        display_name: Some("Alice \"A\" \\ test\n".to_string()),
        groups: Some(vec!["g one".to_string()]),
        metadata: Some(obj(vec![
            ("flag", JsonValue::Bool(true)),
            ("count", JsonValue::Int(-42)),
            ("nothing", JsonValue::Null),
            ("nested", obj(vec![("k", s("v"))])),
            ("list", JsonValue::Arr(vec![JsonValue::Int(1), s("two")])),
        ])),
        status: None,
    };
    let doc = body.to_json();
    let text = json_to_string(&doc);
    let echoed = parse_json_text(&text).expect("round trip parse");
    assert_eq!(echoed, doc);

    let via_serde: serde_json::Value = serde_json::from_str(&text).expect("valid json");
    assert_eq!(via_serde["email"], "alice@example.com");
    assert_eq!(via_serde["display_name"], "Alice \"A\" \\ test\n");
    assert_eq!(via_serde["metadata"]["count"], -42);
    assert_eq!(via_serde["metadata"]["nested"]["k"], "v");
    assert!(via_serde.get("status").is_none());
}

#[test]
fn parser_accepts_whitespace_and_escapes() {
    let text = " { \"a\" : [ 1 , -2 , \"x\\u0041\\n\" ] , \"b\" : null } ";
    let doc = parse_json_text(text).expect("parse");
    assert_eq!(
        doc,
        obj(vec![
            (
                "a",
                JsonValue::Arr(vec![
                    JsonValue::Int(1),
                    JsonValue::Int(-2),
                    s("xA\n"),
                ])
            ),
            ("b", JsonValue::Null),
        ])
    );
}

#[test]
fn parser_handles_integer_limits() {
    assert_eq!(
        parse_json_text("9223372036854775807"),
        Some(JsonValue::Int(i64::MAX))
    );
    assert_eq!(
        parse_json_text("-9223372036854775808"),
        Some(JsonValue::Int(i64::MIN))
    );
    assert!(parse_json_text("9223372036854775808").is_none());
    assert!(parse_json_text("-9223372036854775809").is_none());
    assert!(parse_json_text("1.5").is_none());
}

#[test]
fn clone_json_is_deep_equality() {
    let doc = obj(vec![
        ("a", JsonValue::Arr(vec![s("x"), JsonValue::Int(7)])),
        ("b", obj(vec![("c", JsonValue::Bool(false))])),
    ]);
    assert_eq!(clone_json(&doc), doc);
}

#[test]
fn download_token_request_encodes_i32_expiry() {
    let body = DownloadTokenRequest {
        artifact_id: "art-1".to_string(),
        expires_in_seconds: Some(600),
        purpose: None,
    };
    let text = json_to_string(&body.to_json());
    assert_eq!(text, r#"{"artifact_id":"art-1","expires_in_seconds":600}"#);
}

#[test]
fn success_with_undecodable_body_is_a_transport_error() {
    let error = classify_document(200, "not json".to_string()).expect_err("expected error");
    match error {
        Error::Transport(TransportError::Decode(raw)) => assert_eq!(raw, "not json"),
        other => panic!("unexpected error: {other:?}"),
    }
}

#[test]
fn error_body_parse_failure_degrades_gracefully() {
    let error = error_from_parts(500, "plain text failure".to_string());
    match error {
        Error::Api { status, error, body } => {
            assert_eq!(status, 500);
            assert!(error.is_none());
            assert_eq!(body.as_deref(), Some("plain text failure"));
        }
        other => panic!("unexpected error: {other:?}"),
    }
}

#[test]
fn empty_error_body_is_omitted() {
    let error = error_from_parts(500, String::new());
    match error {
        Error::Api { status, error, body } => {
            assert_eq!(status, 500);
            assert!(error.is_none());
            assert!(body.is_none());
        }
        other => panic!("unexpected error: {other:?}"),
    }
}

#[test]
fn unexpected_status_on_empty_endpoint_is_an_api_error() {
    let body = r#"{"error":{"code":"conflict","message":"busy"}}"#;
    let error = classify_empty(409, 204, body.to_string()).expect_err("expected error");
    match error {
        Error::Api { status, error, .. } => {
            assert_eq!(status, 409);
            assert_eq!(error.unwrap().error.code, "conflict");
        }
        other => panic!("unexpected error: {other:?}"),
    }
}

#[test]
fn redirect_with_location_resolves() {
    let resolution = classify_redirect(302, Some("https://example/obj".to_string()), String::new())
        .expect("resolution");
    assert_eq!(resolution.location, "https://example/obj");
}

#[test]
fn redirect_without_location_is_the_contract_error() {
    let error =
        classify_redirect(302, None, String::new()).expect_err("expected error");
    assert!(matches!(error, Error::MissingLocationHeader));
}

#[test]
fn non_redirect_status_goes_down_the_error_path() {
    let body = r#"{"error":{"code":"expired","message":"token expired"}}"#;
    let error = classify_redirect(410, None, body.to_string()).expect_err("expected error");
    match error {
        Error::Api { status, error, .. } => {
            assert_eq!(status, 410);
            assert_eq!(error.unwrap().error.code, "expired");
        }
        other => panic!("unexpected error: {other:?}"),
    }
}

#[test]
fn upload_accepts_any_2xx_and_rejects_the_rest() {
    assert!(classify_upload(200, String::new()).is_ok());
    assert!(classify_upload(204, String::new()).is_ok());
    let error = classify_upload(403, "denied".to_string()).expect_err("expected error");
    match error {
        Error::Api { status, body, .. } => {
            assert_eq!(status, 403);
            assert_eq!(body.as_deref(), Some("denied"));
        }
        other => panic!("unexpected error: {other:?}"),
    }
}

#[test]
fn error_accessors_expose_api_fields() {
    let error = error_from_parts(
        503,
        r#"{"error":{"code":"unavailable","message":"maintenance"}}"#.to_string(),
    );
    assert_eq!(error.status(), Some(503));
    assert_eq!(error.api_error().unwrap().error.code, "unavailable");
    assert!(error.body().is_some());
    assert_eq!(Error::MissingLocationHeader.status(), None);
}

#[test]
fn resolve_download_request_targets_the_token() {
    let client = Client::new("http://server", Auth::ApiKey("key".to_string())).unwrap();
    let request = client.resolve_download_token_request("tok-1");
    assert_eq!(request.method, Method::Get);
    assert_eq!(request.url, "http://server/v1/downloads/tok-1");
}

#[test]
fn empty_body_endpoints_send_an_empty_payload() {
    let client = Client::new("http://server", Auth::ApiKey("key".to_string())).unwrap();
    let introspect = client.auth_introspect_request();
    assert_eq!(introspect.method, Method::Post);
    assert_eq!(introspect.url, "http://server/v1/auth/introspect");
    assert_eq!(introspect.body.as_deref(), Some(""));
    let publish = client.publish_release_request("rel-1");
    assert_eq!(publish.url, "http://server/v1/releases/rel-1/publish");
    assert_eq!(publish.body.as_deref(), Some(""));
}

#[test]
fn my_parser_reads_serde_json_output() {
    let mut map = serde_json::Map::new();
    map.insert(
        "name".to_string(),
        serde_json::Value::String("Acme".to_string()),
    );
    map.insert("count".to_string(), serde_json::Value::from(3i64));
    let text = serde_json::Value::Object(map).to_string();
    let doc = parse_json_text(&text).expect("parse");
    assert_eq!(
        doc,
        obj(vec![("count", JsonValue::Int(3)), ("name", s("Acme"))])
    );
}

#[test]
fn describe_renders_each_error() {
    let api = error_from_parts(
        503,
        r#"{"error":{"code":"unavailable","message":"maintenance"}}"#.to_string(),
    );
    assert_eq!(api.describe(), "api error (status 503): unavailable (maintenance)");
    let bare = error_from_parts(500, String::new());
    assert_eq!(bare.describe(), "api error (status 500)");
    assert_eq!(
        Error::MissingLocationHeader.describe(),
        "missing Location header in redirect response"
    );
    assert_eq!(
        normalize_base_url("ftp://host").unwrap_err().describe(),
        "invalid base url: ftp://host"
    );
    assert_eq!(
        classify_document(200, "not json".to_string())
            .unwrap_err()
            .describe(),
        "response decode error"
    );
    let network = Error::Transport(TransportError::Network(ureq::Error::Io(
        std::io::Error::new(std::io::ErrorKind::NotFound, "socket gone"),
    )));
    let line = network.describe();
    assert!(line.starts_with("transport error: "));
    assert!(line.len() > "transport error: ".len());
}
