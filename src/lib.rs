//! Core of a local reverse proxy that forwards requests to registered
//! backend targets and injects each target's credentials.
//!
//! Everything here is plain computation: the HTTP server, the outbound
//! client and the registry's persistence live in the application around it.

pub mod error;
pub mod url;
pub mod headers;
pub mod auth;
pub mod token_cache;
pub mod forward;
pub mod registry;
