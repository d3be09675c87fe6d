//! Resolution, versioning and cache-path derivation for binaries that a
//! development tool needs: present locally, or obtained from a declared origin.

pub mod binary;
pub mod source;
pub mod sys;
pub mod version;
