//! Service-account token issuance: a signed RS256 JSON Web Token built from
//! service credentials, and the decisions of the JWT-bearer token exchange.

pub mod credentials;
pub mod exchange;
pub mod json;
pub mod signer;
