//! Typed HTTP client for the Releasy release-management API.
//!
//! The crate builds fully-addressed, fully-headered requests from typed
//! inputs, serializes JSON bodies itself, and classifies HTTP responses
//! into typed success values or a structured error taxonomy. The network
//! transport is delegated to the `ureq` agent behind a small trusted
//! boundary; everything else is verified.

pub mod client;
pub mod classify;
pub mod codec;
pub mod error;
pub mod json;
pub mod models;
pub mod request;
pub mod text;
pub mod transport;

pub use client::{Auth, Client, ClientBuilder, DownloadResolution, normalize_base_url};
pub use error::{Error, TransportError};
pub use json::{Json, JsonValue, json_to_string, parse_json_text};
pub use models::{
    AdminCreateCustomerRequest, AdminCreateCustomerResponse, AdminCreateKeyRequest,
    AdminCreateKeyResponse, AdminCustomerListQuery, AdminCustomerListResponse,
    AdminCustomerResponse, AdminRevokeKeyRequest, AdminRevokeKeyResponse,
    AdminUpdateCustomerRequest, ApiKeyIntrospection, ArtifactPresignRequest,
    ArtifactPresignResponse, ArtifactRegisterRequest, ArtifactRegisterResponse, ArtifactSummary,
    AuditEventListQuery, AuditEventListResponse, AuditEventResponse, DownloadTokenRequest,
    DownloadTokenResponse, EntitlementCreateRequest, EntitlementListQuery,
    EntitlementListResponse, EntitlementResponse, EntitlementUpdateRequest, ErrorBody, ErrorDetail,
    HealthResponse, ReleaseCreateRequest, ReleaseListQuery, ReleaseListResponse, ReleaseResponse,
    ResetCredentialsRequest, UserCreateRequest, UserGroupsReplaceRequest, UserListQuery,
    UserListResponse, UserPatchRequest, UserResponse,
};
pub use text::{bool_str, i64_to_dec, i32_to_dec, u16_to_dec, u64_to_dec};
