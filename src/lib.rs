//! A service-lifecycle broker: identifiers that encode the parent instance of
//! each binding, backend providers that issue and revoke per-binding
//! credentials, and a router that dispatches lifecycle calls by service type.
pub mod backing;
pub mod codec;
pub mod config;
pub mod credentials;
pub mod error;
pub mod filesystem;
pub mod http;
pub mod ids;
pub mod params;
pub mod router;
pub mod store;
pub mod strmap;
pub mod text;
pub mod timestamp;
pub mod valkey;
