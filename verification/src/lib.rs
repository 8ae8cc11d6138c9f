//! Core of a container image registry speaking the Docker Registry HTTP API
//! v2: the content-addressed store over blobs, manifests, tags, repositories
//! and manifest-to-blob edges, the chunked upload state machine, the
//! garbage-collection sweep, and repository-name canonicalisation.
//!
//! The store is the relational state itself; reading it from and writing it
//! to durable storage, as well as the HTTP plumbing around it, live outside
//! this crate.

pub mod api;
pub mod db;
pub mod digest;
pub mod errors;
pub mod kvmap;
pub mod rewrite;
pub mod textorder;
