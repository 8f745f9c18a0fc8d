//! Error taxonomy shared by the registry, the client and the signer.

use vstd::prelude::*;

verus! {

/// Errors raised by the registry store and its loaders.
#[derive(Debug, Clone, PartialEq, Eq)]
pub enum RegistryError {
    /// Malformed or inconsistent on-disk OCI content.
    OciRegistry(String),
    /// Bad runtime configuration.
    Config(String),
    /// An I/O failure reported by the surrounding process.
    Io(String),
}

/// Errors raised by the pull client.
#[derive(Debug, Clone, PartialEq, Eq)]
pub enum Error {
    ConfigError(String),
    UrlParsingError(String),
    JSONParsingError(String),
    ManifestFormatError,
    ConnectionError,
    IOError(String),
    StatusError(u16),
    ReferenceInvalidError,
    DigestInvalidError,
    TagInvalidError,
    LayerInvalidError,
    LayerInvalidDiffIdError,
    ResponseLengthInvalid,
    ResponseDigestInvalid,
    UnknownError,
}

/// Errors raised by the image signer.
#[derive(Debug, Clone, PartialEq, Eq)]
pub enum SignerError {
    Crypto(String),
    OciRegistry(String),
    Io(String),
}

} // verus!
