//! Types of std and of outside crates that values of this library carry
//! without looking inside.
use vstd::prelude::*;

verus! {

#[verifier::external_type_specification]
#[verifier::external_body]
pub struct ExPathBuf(std::path::PathBuf);

#[verifier::external_type_specification]
#[verifier::external_body]
pub struct ExIoError(std::io::Error);

#[verifier::external_type_specification]
#[verifier::external_body]
pub struct ExJsonError(serde_json::Error);

#[verifier::external_type_specification]
#[verifier::external_body]
pub struct ExTomlError(toml::de::Error);

/// Relies on `Path::to_string_lossy`: the path as text, for messages.
#[verifier::external_body]
pub(crate) fn path_text(p: &std::path::PathBuf) -> String {
    p.to_string_lossy().into_owned()
}

/// Relies on `Path::join`: the path with one more component.
#[verifier::external_body]
pub(crate) fn join(p: &std::path::PathBuf, s: &str) -> std::path::PathBuf {
    p.join(s)
}

/// Relies on `PathBuf::from` on a `String`: the text taken as a path.
#[verifier::external_body]
pub(crate) fn path_from(s: String) -> std::path::PathBuf {
    std::path::PathBuf::from(s)
}

} // verus!
