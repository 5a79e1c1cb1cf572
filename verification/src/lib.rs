//! A credential-issuance library: opaque ten-digit numeric API keys, each
//! mapped to a small record (organization, authorization level), with strict
//! parsing of client-supplied keys and an authentication gate for lookups.

pub mod errors;
pub mod keys;
pub mod levels;
pub mod record;
pub mod service;
pub mod store;
