//! Persistent-identifier resolution: the namespace registry, its claim rule,
//! and the decisions behind each `urn:name:*` face.

pub mod admin;
pub mod docs;
pub mod document;
pub mod error;
pub mod health;
pub mod iri;
pub mod options;
pub mod registry;
pub mod resolve;
pub mod results;
pub mod text;

pub use admin::{admin_scope, CAP_ADMIN_ANY, CAP_CLAIM};
pub use error::NameError;
pub use registry::{overlaps, ClaimError, Limits, LoadError, Namespace, Registry, Strategy};
pub use resolve::{CAP_ADMIN, REGISTRY_IRI};
