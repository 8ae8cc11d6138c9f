//! The registry's API operations, one module per resource: the version
//! probe, blob uploads and downloads, manifests, tags, and the repository
//! catalog. Each function computes a response's content; the HTTP plumbing
//! around it lives outside this crate.

pub mod base;
pub mod blob;
pub mod catalog;
pub mod manifests;
pub mod tags;

pub use base::base;
pub use base::GetBaseResponse;
pub use crate::errors::RegistryError;
pub use crate::errors::RegistryErrorDetails;
pub use catalog::catalog;
pub use tags::tags;
