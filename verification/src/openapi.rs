//! The bodies of answers, as the API's description has them.
use vstd::prelude::*;

verus! {

/// The answer of `GET /healthz`.
pub struct HealthResponse {
    pub status: String,
    pub token: TokenStatusResponse,
}

/// The answer of `GET /v1/token/status`.
pub struct TokenStatusResponse {
    pub valid: bool,
    pub error: Option<String>,
    pub expires_at: Option<String>,
    pub seconds_remaining: i64,
}

/// The answer of `GET /v1/models`.
pub struct ModelListResponse {
    pub object: String,
    pub data: Vec<ModelObject>,
}

/// A model.
pub struct ModelObject {
    pub id: String,
    pub object: String,
    pub owned_by: String,
}

/// An error.
pub struct ErrorResponse {
    pub detail: String,
}

} // verus!
