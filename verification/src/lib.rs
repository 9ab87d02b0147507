//! Core of a token-gated JSON API: credential hashing and verification,
//! stateless signed-token issuance and validation, a bearer-token request
//! gate, declarative multi-field validation with full error aggregation,
//! and the uniform response envelope that every outcome is rendered through.
//!
//! The surrounding HTTP server, the database, and the process bootstrap are
//! collaborators: they feed plain values (request bodies, lookup outcomes,
//! the current unix time, the signing secret) into the functions here and
//! carry the resulting replies back out.

pub mod base64url;
pub mod claims;
pub mod credentials;
pub mod envelope;
pub mod flows;
pub mod gate;
pub mod models;
pub mod schemas;
pub mod token;
pub mod validation;
