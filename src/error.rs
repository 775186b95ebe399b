//! The library's error type.
use vstd::prelude::*;

verus! {

/// Every failure the library reports. Failures that arise outside the
/// library (file access, encoding, network) carry the outside message.
#[derive(Debug, PartialEq, Eq)]
pub enum McmodError {
    InvalidModId(String),
    InvalidPackage(String),
    AlreadyEnabled(String),
    NotEnabled(String),
    ConfigNotFound,
    Io(String),
    TomlSerialize(String),
    TomlDeserialize(String),
    Http(String),
    Json(String),
    Other(String),
}

} // verus!
