//! Core of a Java runtime version manager: resolves a requested major
//! version against the locally installed distributions, reads the
//! remote release catalog's answers, verifies downloaded archives
//! against their checksum, validates and places extracted trees, and
//! decides which superseded installations a cleanup may remove.
//!
//! Everything here works on plain values; reading directories, the
//! network and the archive formats themselves stay with the caller.

pub mod adoptium;
pub mod conf;
pub mod download;
pub mod extract;
pub mod lifecycle;
pub mod text;
pub mod version;
