//! The wire records of the API: plain structs of strings, 64-bit
//! integers, booleans, string lists and opaque JSON values. Optional
//! fields are absent from the wire when unset, never sent as `null`.

use vstd::prelude::*;
use crate::json::JsonValue;

verus! {

#[derive(Clone, Debug, PartialEq, Eq)]
pub struct AdminCreateCustomerRequest {
    pub name: String,
    pub plan: Option<String>,
}

#[derive(Clone, Debug, PartialEq, Eq)]
pub struct AdminCreateCustomerResponse {
    pub id: String,
    pub name: String,
    pub created_at: i64,
    pub plan: Option<String>,
}

#[derive(Clone, Debug, PartialEq, Eq)]
pub struct AdminCustomerListQuery {
    pub customer_id: Option<String>,
    pub name: Option<String>,
    pub plan: Option<String>,
    pub limit: Option<i32>,
    pub offset: Option<i32>,
}

impl Default for AdminCustomerListQuery {
    fn default() -> (r: Self)
        ensures
            r.customer_id is None && r.name is None && r.plan is None && r.limit is None
                && r.offset is None,
    {
        AdminCustomerListQuery {
            customer_id: None,
            name: None,
            plan: None,
            limit: None,
            offset: None,
        }
    }
}

#[derive(Clone, Debug, PartialEq, Eq)]
pub struct AdminCustomerResponse {
    pub id: String,
    pub name: String,
    pub created_at: i64,
    pub plan: Option<String>,
    pub suspended_at: Option<i64>,
}

#[derive(Clone, Debug, PartialEq, Eq)]
pub struct AdminCustomerListResponse {
    pub customers: Vec<AdminCustomerResponse>,
    pub limit: i64,
    pub offset: i64,
}

#[derive(Clone, Debug, PartialEq, Eq)]
pub struct AdminUpdateCustomerRequest {
    pub name: Option<String>,
    pub plan: Option<String>,
    pub suspended: Option<bool>,
}

#[derive(Clone, Debug, PartialEq, Eq)]
pub struct AdminCreateKeyRequest {
    pub customer_id: String,
    pub expires_at: Option<i64>,
    pub key_type: Option<String>,
    pub name: Option<String>,
    pub scopes: Option<Vec<String>>,
}

#[derive(Clone, Debug, PartialEq, Eq)]
pub struct AdminCreateKeyResponse {
    pub api_key_id: String,
    pub api_key: String,
    pub customer_id: String,
    pub key_type: String,
    pub scopes: Vec<String>,
    pub expires_at: Option<i64>,
}

#[derive(Clone, Debug, PartialEq, Eq)]
pub struct AdminRevokeKeyRequest {
    pub api_key_id: String,
}

#[derive(Clone, Debug, PartialEq, Eq)]
pub struct AdminRevokeKeyResponse {
    pub api_key_id: String,
}

#[derive(Clone, Debug, PartialEq, Eq)]
pub struct ApiKeyIntrospection {
    pub active: bool,
    pub api_key_id: String,
    pub customer_id: String,
    pub key_type: String,
    pub scopes: Vec<String>,
    pub expires_at: Option<i64>,
}

#[derive(Clone, Debug, PartialEq, Eq)]
pub struct ArtifactPresignRequest {
    pub filename: String,
    pub platform: String,
}

#[derive(Clone, Debug, PartialEq, Eq)]
pub struct ArtifactPresignResponse {
    pub artifact_id: String,
    pub object_key: String,
    pub upload_url: String,
    pub expires_at: i64,
}

#[derive(Clone, Debug, PartialEq, Eq)]
pub struct ArtifactRegisterRequest {
    pub artifact_id: String,
    pub object_key: String,
    pub checksum: String,
    pub size: i64,
    pub platform: String,
}

#[derive(Clone, Debug, PartialEq, Eq)]
pub struct ArtifactRegisterResponse {
    pub id: String,
    pub release_id: String,
    pub object_key: String,
    pub checksum: String,
    pub size: i64,
    pub platform: String,
    pub created_at: i64,
}

#[derive(Clone, Debug, PartialEq, Eq)]
pub struct ArtifactSummary {
    pub id: String,
    pub object_key: String,
    pub platform: String,
    pub checksum: String,
    pub size: i64,
}

#[derive(Clone, Debug, PartialEq, Eq)]
pub struct AuditEventListQuery {
    pub customer_id: Option<String>,
    pub actor: Option<String>,
    pub event: Option<String>,
    pub created_from: Option<i64>,
    pub created_to: Option<i64>,
    pub limit: Option<i32>,
    pub offset: Option<i32>,
}

impl Default for AuditEventListQuery {
    fn default() -> (r: Self)
        ensures
            r.customer_id is None && r.actor is None && r.event is None && r.created_from is None
                && r.created_to is None && r.limit is None && r.offset is None,
    {
        AuditEventListQuery {
            customer_id: None,
            actor: None,
            event: None,
            created_from: None,
            created_to: None,
            limit: None,
            offset: None,
        }
    }
}

#[derive(Debug, PartialEq, Eq)]
pub struct AuditEventListResponse {
    pub events: Vec<AuditEventResponse>,
    pub limit: i64,
    pub offset: i64,
}

#[derive(Debug, PartialEq, Eq)]
pub struct AuditEventResponse {
    pub id: String,
    pub actor: String,
    pub event: String,
    pub created_at: i64,
    pub customer_id: Option<String>,
    pub payload: Option<JsonValue>,
}

#[derive(Clone, Debug, PartialEq, Eq)]
pub struct DownloadTokenRequest {
    pub artifact_id: String,
    pub expires_in_seconds: Option<i32>,
    pub purpose: Option<String>,
}

#[derive(Clone, Debug, PartialEq, Eq)]
pub struct DownloadTokenResponse {
    pub download_url: String,
    pub expires_at: i64,
}

#[derive(Debug, PartialEq, Eq)]
pub struct EntitlementCreateRequest {
    pub product: String,
    pub starts_at: i64,
    pub ends_at: Option<i64>,
    pub metadata: Option<JsonValue>,
}

#[derive(Debug, PartialEq, Eq)]
pub struct EntitlementUpdateRequest {
    pub product: Option<String>,
    pub starts_at: Option<i64>,
    pub ends_at: Option<i64>,
    pub metadata: Option<JsonValue>,
}

#[derive(Debug, PartialEq, Eq)]
pub struct EntitlementResponse {
    pub id: String,
    pub customer_id: String,
    pub product: String,
    pub starts_at: i64,
    pub ends_at: Option<i64>,
    pub metadata: Option<JsonValue>,
}

#[derive(Clone, Debug, PartialEq, Eq)]
pub struct EntitlementListQuery {
    pub product: Option<String>,
    pub limit: Option<i32>,
    pub offset: Option<i32>,
}

impl Default for EntitlementListQuery {
    fn default() -> (r: Self)
        ensures
            r.product is None && r.limit is None && r.offset is None,
    {
        EntitlementListQuery { product: None, limit: None, offset: None }
    }
}

#[derive(Debug, PartialEq, Eq)]
pub struct EntitlementListResponse {
    pub entitlements: Vec<EntitlementResponse>,
    pub limit: i64,
    pub offset: i64,
}

#[derive(Clone, Debug, PartialEq, Eq)]
pub struct ErrorBody {
    pub error: ErrorDetail,
}

#[derive(Clone, Debug, PartialEq, Eq)]
pub struct ErrorDetail {
    pub code: String,
    pub message: String,
}

#[derive(Clone, Debug, PartialEq, Eq)]
pub struct HealthResponse {
    pub status: String,
}

#[derive(Clone, Debug, PartialEq, Eq)]
pub struct ReleaseCreateRequest {
    pub product: String,
    pub version: String,
}

#[derive(Clone, Debug, PartialEq, Eq)]
pub struct ReleaseResponse {
    pub id: String,
    pub product: String,
    pub version: String,
    pub status: String,
    pub created_at: i64,
    pub published_at: Option<i64>,
    pub artifacts: Option<Vec<ArtifactSummary>>,
}

#[derive(Clone, Debug, PartialEq, Eq)]
pub struct ReleaseListQuery {
    pub product: Option<String>,
    pub version: Option<String>,
    pub status: Option<String>,
    pub include_artifacts: Option<bool>,
    pub limit: Option<i32>,
    pub offset: Option<i32>,
}

impl Default for ReleaseListQuery {
    fn default() -> (r: Self)
        ensures
            r.product is None && r.version is None && r.status is None && r.include_artifacts
                is None && r.limit is None && r.offset is None,
    {
        ReleaseListQuery {
            product: None,
            version: None,
            status: None,
            include_artifacts: None,
            limit: None,
            offset: None,
        }
    }
}

#[derive(Clone, Debug, PartialEq, Eq)]
pub struct ReleaseListResponse {
    pub releases: Vec<ReleaseResponse>,
    pub limit: i64,
    pub offset: i64,
}

#[derive(Clone, Debug, PartialEq, Eq)]
pub struct ResetCredentialsRequest {
    pub send_email: Option<bool>,
}

#[derive(Debug, PartialEq, Eq)]
pub struct UserCreateRequest {
    pub email: String,
    pub customer_id: String,
    pub display_name: Option<String>,
    pub groups: Option<Vec<String>>,
    pub metadata: Option<JsonValue>,
    pub status: Option<String>,
}

#[derive(Clone, Debug, PartialEq, Eq)]
pub struct UserGroupsReplaceRequest {
    pub groups: Vec<String>,
}

#[derive(Clone, Debug, PartialEq, Eq)]
pub struct UserListQuery {
    pub customer_id: Option<String>,
    pub email: Option<String>,
    pub status: Option<String>,
    pub keycloak_user_id: Option<String>,
    pub created_from: Option<i64>,
    pub created_to: Option<i64>,
    pub limit: Option<i32>,
    pub cursor: Option<String>,
}

impl Default for UserListQuery {
    fn default() -> (r: Self)
        ensures
            r.customer_id is None && r.email is None && r.status is None && r.keycloak_user_id
                is None && r.created_from is None && r.created_to is None && r.limit is None
                && r.cursor is None,
    {
        UserListQuery {
            customer_id: None,
            email: None,
            status: None,
            keycloak_user_id: None,
            created_from: None,
            created_to: None,
            limit: None,
            cursor: None,
        }
    }
}

#[derive(Debug, PartialEq, Eq)]
pub struct UserPatchRequest {
    pub display_name: Option<String>,
    pub groups: Option<Vec<String>>,
    pub metadata: Option<JsonValue>,
    pub status: Option<String>,
}

#[derive(Debug, PartialEq, Eq)]
pub struct UserListResponse {
    pub users: Vec<UserResponse>,
    pub next_cursor: Option<String>,
}

#[derive(Debug, PartialEq, Eq)]
pub struct UserResponse {
    pub id: String,
    pub keycloak_user_id: String,
    pub customer_id: String,
    pub email: String,
    pub status: String,
    pub groups: Vec<String>,
    pub created_at: i64,
    pub updated_at: i64,
    pub display_name: Option<String>,
    pub metadata: Option<JsonValue>,
}

} // verus!
