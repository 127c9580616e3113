//! Assembles a distributable package directory from a package source tree:
//! which files go in, how relative self-imports become imports of the
//! package's published coordinate, and how the manifest is cleaned.
pub mod assemble;
pub mod error;
pub mod exclude;
pub mod idempotence;
pub mod imports;
pub mod manifest;
pub mod naming;
pub mod paths;
pub mod schema;
pub mod text;
