//! Retrieval of stored proof documents by identifier.
//!
//! `store` holds the identifier-to-document mapping and its loading from a
//! JSON object; `json` is the boundary to `serde_json`; `stark_proof` is the
//! request contract built on top of the store.
pub mod json;
pub mod stark_proof;
pub mod store;
