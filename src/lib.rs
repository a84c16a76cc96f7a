//! Reconstruction of the files of an update package from its manifest and
//! its aggregate patch blob.
//!
//! - `container`: finding the inner update container, the manifest document
//!   and the patch blob inside the package's cabinet archives.
//! - `cabcheck`: which cabinet archives are read at all (see `cab_reads_safely`).
//! - `manifest`: the manifest model and its construction from attribute text.
//! - `engine`: per-file payload slicing, decode dispatch and hash checks.
//! - `paths`: confining output paths to the output root.
//! - `digest`, `filetime`, `package`, `text`: hashes, timestamps, package
//!   naming conventions and character helpers.
pub mod cabcheck;
pub mod container;
pub mod digest;
pub mod engine;
pub mod filetime;
pub mod manifest;
pub mod package;
pub mod paths;
pub mod text;
