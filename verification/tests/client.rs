use std::collections::HashMap;

use releasy_client::{
    AdminCustomerListQuery, AdminCustomerListResponse, AdminCustomerResponse,
    AdminUpdateCustomerRequest, Auth, Client, Error, HealthResponse, ReleaseCreateRequest,
    ReleaseListQuery, ReleaseListResponse, ResetCredentialsRequest, UserCreateRequest,
    UserGroupsReplaceRequest, UserListQuery, UserListResponse, UserPatchRequest, UserResponse,
};
use releasy_client::classify::{classify_document, classify_empty};
use releasy_client::json::parse_json_text;
use releasy_client::request::{Method, PreparedRequest};

fn parse_query(url: &str) -> (String, HashMap<String, String>) {
    let mut parts = url.splitn(2, '?');
    let base = parts.next().unwrap_or("").to_string();
    let query = parts.next().unwrap_or("");
    let mut params = HashMap::new();
    if !query.is_empty() {
        for pair in query.split('&') {
            if let Some((key, value)) = pair.split_once('=') {
                params.insert(key.to_string(), value.to_string());
            }
        }
    }
    (base, params)
}

fn header<'a>(req: &'a PreparedRequest, name: &str) -> Option<&'a str> {
    req.headers
        .iter()
        .find(|(k, _)| k == name)
        .map(|(_, v)| v.as_str())
}

fn decode<T>(status: u16, body: &str, decode: impl Fn(&releasy_client::JsonValue) -> Option<T>) -> Result<T, Error> {
    match classify_document(status, body.to_string()) {
        Ok((doc, raw)) => match decode(&doc) {
            Some(x) => Ok(x),
            None => Err(Error::Transport(releasy_client::TransportError::Decode(raw))),
        },
        Err(e) => Err(e),
    }
}

#[test]
fn health_check_happy_path() {
    let client = Client::new("http://server", Auth::NoAuth).unwrap();
    let request = client.health_check_request();
    assert_eq!(request.method, Method::Get);
    assert_eq!(request.url, "http://server/health");
    assert!(request.body.is_none());

    let body = r#"{"status":"ok"}"#;
    let response: HealthResponse = decode(200, body, HealthResponse::of_json).unwrap();
    assert_eq!(response.status, "ok");
}

#[test]
fn live_check_happy_path() {
    let client = Client::new("http://server", Auth::NoAuth).unwrap();
    let request = client.live_check_request();
    assert_eq!(request.method, Method::Get);
    assert_eq!(request.url, "http://server/live");

    let body = r#"{"status":"live"}"#;
    let response: HealthResponse = decode(200, body, HealthResponse::of_json).unwrap();
    assert_eq!(response.status, "live");
}

#[test]
fn ready_check_service_unavailable_returns_error() {
    let client = Client::new("http://server", Auth::NoAuth).unwrap();
    let request = client.ready_check_request();
    assert_eq!(request.method, Method::Get);
    assert_eq!(request.url, "http://server/ready");

    let body = r#"{"error":{"code":"unavailable","message":"maintenance"}}"#;
    let error = decode(503, body, HealthResponse::of_json).expect_err("expected error");
    match error {
        Error::Api { status, error, .. } => {
            assert_eq!(status, 503);
            let detail = error.expect("error body");
            assert_eq!(detail.error.code, "unavailable");
            assert_eq!(detail.error.message, "maintenance");
        }
        other => panic!("unexpected error: {other:?}"),
    }
}

#[test]
fn list_customers_happy_path() {
    let client = Client::new("http://server", Auth::AdminKey("admin-key".to_string())).unwrap();
    let query = AdminCustomerListQuery {
        customer_id: Some("cust-1".to_string()),
        name: Some("Acme".to_string()),
        plan: Some("pro".to_string()),
        limit: Some(100),
        offset: Some(10),
    };

    let request = client.list_customers_request(&query);
    assert_eq!(request.method, Method::Get);
    let (path, params) = parse_query(&request.url);
    assert_eq!(path, "http://server/v1/admin/customers");
    assert_eq!(params.get("customer_id"), Some(&"cust-1".to_string()));
    assert_eq!(params.get("name"), Some(&"Acme".to_string()));
    assert_eq!(params.get("plan"), Some(&"pro".to_string()));
    assert_eq!(params.get("limit"), Some(&"100".to_string()));
    assert_eq!(params.get("offset"), Some(&"10".to_string()));
    assert_eq!(header(&request, "x-releasy-admin-key"), Some("admin-key"));

    let body = r#"{"customers":[{"id":"cust-1","name":"Acme","created_at":1700000000,"plan":"pro","suspended_at":null}],"limit":100,"offset":10}"#;
    let response: AdminCustomerListResponse =
        decode(200, body, AdminCustomerListResponse::of_json).unwrap();
    assert_eq!(response.customers.len(), 1);
    assert_eq!(response.customers[0].id, "cust-1");
    assert_eq!(response.customers[0].plan.as_deref(), Some("pro"));
    assert_eq!(response.limit, 100);
    assert_eq!(response.offset, 10);
}

#[test]
fn get_customer_not_found_returns_error() {
    let client = Client::new("http://server", Auth::AdminKey("admin-key".to_string())).unwrap();
    let request = client.get_customer_request("cust-missing");
    assert_eq!(request.method, Method::Get);
    assert_eq!(request.url, "http://server/v1/admin/customers/cust-missing");
    assert_eq!(header(&request, "x-releasy-admin-key"), Some("admin-key"));

    let body = r#"{"error":{"code":"not_found","message":"customer missing"}}"#;
    let error = decode(404, body, AdminCustomerResponse::of_json).expect_err("expected error");
    match error {
        Error::Api { status, error, .. } => {
            assert_eq!(status, 404);
            let detail = error.expect("error body");
            assert_eq!(detail.error.code, "not_found");
            assert_eq!(detail.error.message, "customer missing");
        }
        other => panic!("unexpected error: {other:?}"),
    }
}

#[test]
fn update_customer_happy_path() {
    let client = Client::new("http://server", Auth::AdminKey("admin-key".to_string())).unwrap();
    let request_body = AdminUpdateCustomerRequest {
        name: None,
        plan: Some("enterprise".to_string()),
        suspended: None,
    };

    let request = client.update_customer_request("cust-1", &request_body);
    assert_eq!(request.method, Method::Patch);
    assert_eq!(request.url, "http://server/v1/admin/customers/cust-1");
    assert_eq!(header(&request, "x-releasy-admin-key"), Some("admin-key"));
    let body_json: serde_json::Value =
        serde_json::from_str(request.body.as_deref().expect("json body")).expect("json body");
    assert_eq!(body_json["plan"], "enterprise");
    assert_eq!(body_json.as_object().unwrap().len(), 1);

    let body = r#"{"id":"cust-1","name":"Acme","created_at":1700000000,"plan":"enterprise","suspended_at":null}"#;
    let response: AdminCustomerResponse =
        decode(200, body, AdminCustomerResponse::of_json).unwrap();
    assert_eq!(response.plan.as_deref(), Some("enterprise"));
    assert_eq!(response.id, "cust-1");
}

#[test]
fn list_users_happy_path() {
    let client = Client::new("http://server", Auth::AdminKey("admin-key".to_string())).unwrap();
    let query = UserListQuery {
        customer_id: Some("cust-1".to_string()),
        email: Some("alice".to_string()),
        status: Some("active".to_string()),
        keycloak_user_id: Some("kc-1".to_string()),
        created_from: Some(1_700_000_000),
        created_to: Some(1_700_001_000),
        limit: Some(25),
        cursor: Some("cursor-1".to_string()),
    };

    let request = client.list_users_request(&query);
    assert_eq!(request.method, Method::Get);
    let (path, params) = parse_query(&request.url);
    assert_eq!(path, "http://server/v1/admin/users");
    assert_eq!(params.get("customer_id"), Some(&"cust-1".to_string()));
    assert_eq!(params.get("email"), Some(&"alice".to_string()));
    assert_eq!(params.get("status"), Some(&"active".to_string()));
    assert_eq!(params.get("keycloak_user_id"), Some(&"kc-1".to_string()));
    assert_eq!(params.get("created_from"), Some(&"1700000000".to_string()));
    assert_eq!(params.get("created_to"), Some(&"1700001000".to_string()));
    assert_eq!(params.get("limit"), Some(&"25".to_string()));
    assert_eq!(params.get("cursor"), Some(&"cursor-1".to_string()));
    assert_eq!(header(&request, "x-releasy-admin-key"), Some("admin-key"));

    let body = r#"{"users":[{"id":"user-1","keycloak_user_id":"kc-1","customer_id":"cust-1","email":"alice","status":"active","groups":["platform_admin"],"created_at":1700000000,"updated_at":1700001000}],"next_cursor":"cursor-2"}"#;
    let response: UserListResponse = decode(200, body, UserListResponse::of_json).unwrap();
    assert_eq!(response.users.len(), 1);
    assert_eq!(response.users[0].id, "user-1");
    assert_eq!(response.next_cursor.as_deref(), Some("cursor-2"));
}

#[test]
fn create_user_happy_path() {
    let client = Client::new("http://server", Auth::AdminKey("admin-key".to_string())).unwrap();
    let request_body = UserCreateRequest {
        email: "alice".to_string(),
        customer_id: "cust-1".to_string(),
        display_name: None,
        groups: Some(vec!["platform_admin".to_string()]),
        metadata: None,
        status: Some("active".to_string()),
    };

    let request = client.create_user_request(&request_body, None);
    assert_eq!(request.method, Method::Post);
    assert_eq!(request.url, "http://server/v1/admin/users");
    assert_eq!(header(&request, "x-releasy-admin-key"), Some("admin-key"));
    let body_json: serde_json::Value =
        serde_json::from_str(request.body.as_deref().expect("json body")).expect("json body");
    assert_eq!(body_json["email"], "alice");
    assert_eq!(body_json["customer_id"], "cust-1");
    assert_eq!(body_json["status"], "active");
    assert_eq!(
        body_json["groups"].as_array().unwrap()[0].as_str().unwrap(),
        "platform_admin"
    );

    let body = r#"{"id":"user-1","keycloak_user_id":"kc-1","customer_id":"cust-1","email":"alice","status":"active","groups":["platform_admin"],"created_at":1700000000,"updated_at":1700001000}"#;
    let response: UserResponse = decode(201, body, UserResponse::of_json).unwrap();
    assert_eq!(response.id, "user-1");
    assert_eq!(response.email, "alice");
}

#[test]
fn get_user_not_found_returns_error() {
    let client = Client::new("http://server", Auth::AdminKey("admin-key".to_string())).unwrap();
    let request = client.get_user_request("user-missing");
    assert_eq!(request.method, Method::Get);
    assert_eq!(request.url, "http://server/v1/admin/users/user-missing");
    assert_eq!(header(&request, "x-releasy-admin-key"), Some("admin-key"));

    let body = r#"{"error":{"code":"not_found","message":"user missing"}}"#;
    let error = decode(404, body, UserResponse::of_json).expect_err("expected error");
    match error {
        Error::Api { status, error, .. } => {
            assert_eq!(status, 404);
            let detail = error.expect("error body");
            assert_eq!(detail.error.code, "not_found");
            assert_eq!(detail.error.message, "user missing");
        }
        other => panic!("unexpected error: {other:?}"),
    }
}

#[test]
fn patch_user_happy_path() {
    let client = Client::new("http://server", Auth::AdminKey("admin-key".to_string())).unwrap();
    let request_body = UserPatchRequest {
        display_name: Some("Alice".to_string()),
        groups: None,
        metadata: None,
        status: None,
    };

    let request = client.patch_user_request("user-1", &request_body);
    assert_eq!(request.method, Method::Patch);
    assert_eq!(request.url, "http://server/v1/admin/users/user-1");
    assert_eq!(header(&request, "x-releasy-admin-key"), Some("admin-key"));
    let body_json: serde_json::Value =
        serde_json::from_str(request.body.as_deref().expect("json body")).expect("json body");
    assert_eq!(body_json["display_name"], "Alice");
    assert_eq!(body_json.as_object().unwrap().len(), 1);

    let body = r#"{"id":"user-1","keycloak_user_id":"kc-1","customer_id":"cust-1","email":"alice","status":"active","groups":["platform_admin"],"created_at":1700000000,"updated_at":1700002000,"display_name":"Alice"}"#;
    let response: UserResponse = decode(200, body, UserResponse::of_json).unwrap();
    assert_eq!(response.display_name.as_deref(), Some("Alice"));
}

#[test]
fn replace_groups_happy_path() {
    let client = Client::new("http://server", Auth::AdminKey("admin-key".to_string())).unwrap();
    let request_body = UserGroupsReplaceRequest {
        groups: vec!["platform_support".to_string()],
    };

    let request = client.replace_groups_request("user-1", &request_body);
    assert_eq!(request.method, Method::Put);
    assert_eq!(request.url, "http://server/v1/admin/users/user-1/groups");
    assert_eq!(header(&request, "x-releasy-admin-key"), Some("admin-key"));
    let body_json: serde_json::Value =
        serde_json::from_str(request.body.as_deref().expect("json body")).expect("json body");
    assert_eq!(
        body_json["groups"].as_array().unwrap()[0].as_str().unwrap(),
        "platform_support"
    );

    let body = r#"{"id":"user-1","keycloak_user_id":"kc-1","customer_id":"cust-1","email":"alice","status":"active","groups":["platform_support"],"created_at":1700000000,"updated_at":1700002000}"#;
    let response: UserResponse = decode(200, body, UserResponse::of_json).unwrap();
    assert_eq!(response.groups, vec!["platform_support".to_string()]);
}

#[test]
fn reset_credentials_accepts_202() {
    let client = Client::new("http://server", Auth::AdminKey("admin-key".to_string())).unwrap();
    let request_body = ResetCredentialsRequest {
        send_email: Some(true),
    };

    let request = client.reset_credentials_request("user-1", &request_body);
    assert_eq!(request.method, Method::Post);
    assert_eq!(request.url, "http://server/v1/admin/users/user-1/reset-credentials");
    assert_eq!(header(&request, "x-releasy-admin-key"), Some("admin-key"));
    let body_json: serde_json::Value =
        serde_json::from_str(request.body.as_deref().expect("json body")).expect("json body");
    assert_eq!(body_json["send_email"], true);

    classify_empty(202, 202, String::new()).expect("reset");
}

#[test]
fn list_releases_happy_path() {
    let client = Client::new("http://server", Auth::ApiKey("test-key".to_string())).unwrap();
    let query = ReleaseListQuery {
        product: Some("demo".to_string()),
        limit: Some(10),
        offset: Some(0),
        include_artifacts: Some(true),
        ..Default::default()
    };

    let request = client.list_releases_request(&query);
    assert_eq!(request.method, Method::Get);
    let (path, params) = parse_query(&request.url);
    assert_eq!(path, "http://server/v1/releases");
    assert_eq!(params.get("product"), Some(&"demo".to_string()));
    assert_eq!(params.get("limit"), Some(&"10".to_string()));
    assert_eq!(params.get("offset"), Some(&"0".to_string()));
    assert_eq!(params.get("include_artifacts"), Some(&"true".to_string()));
    assert_eq!(header(&request, "x-releasy-api-key"), Some("test-key"));

    let body = r#"{"releases":[],"limit":10,"offset":0}"#;
    let response: ReleaseListResponse = decode(200, body, ReleaseListResponse::of_json).unwrap();
    assert_eq!(response.releases.len(), 0);
    assert_eq!(response.limit, 10);
    assert_eq!(response.offset, 0);
}

#[test]
fn create_release_returns_api_error() {
    let client = Client::new("http://server", Auth::AdminKey("admin-key".to_string())).unwrap();
    let request_body = ReleaseCreateRequest {
        product: "demo".to_string(),
        version: "1.0.0".to_string(),
    };

    let request = client.create_release_request(&request_body);
    assert_eq!(request.method, Method::Post);
    assert_eq!(request.url, "http://server/v1/releases");
    assert_eq!(header(&request, "x-releasy-admin-key"), Some("admin-key"));
    let body_json: serde_json::Value =
        serde_json::from_str(request.body.as_deref().expect("json body")).expect("json body");
    assert_eq!(body_json["product"], "demo");
    assert_eq!(body_json["version"], "1.0.0");

    let body = r#"{"error":{"code":"release_conflict","message":"already exists"}}"#;
    let error = decode(409, body, releasy_client::ReleaseResponse::of_json)
        .expect_err("expected error");
    match error {
        Error::Api { status, error, .. } => {
            assert_eq!(status, 409);
            let detail = error.expect("error body");
            assert_eq!(detail.error.code, "release_conflict");
            assert_eq!(detail.error.message, "already exists");
        }
        other => panic!("unexpected error: {other:?}"),
    }
}

#[test]
fn parse_json_text_rejects_garbage() {
    assert!(parse_json_text("{").is_none());
    assert!(parse_json_text("").is_none());
    assert!(parse_json_text("{\"a\":}").is_none());
    assert!(parse_json_text("[1,]").is_none());
    assert!(parse_json_text("tru").is_none());
}
