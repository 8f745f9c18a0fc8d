//! A verified core for a pull-only OCI image registry: digest and reference
//! parsing, layout validation, application import, the HTTP distribution
//! surface, image signing, and the client-side integrity checks.

pub mod application;
pub mod assoc;
pub mod client;
pub mod crypto;
pub mod digest;
pub mod docs;
pub mod errors;
pub mod hashing;
pub mod hex;
pub mod httpd;
pub mod json;
pub mod layer;
pub mod mediatype;
pub mod reference;
pub mod registry;
pub mod service_url;
pub mod signer;
pub mod tag;
pub mod text;
