//! Verified core of a Rust toolchain installer: target triples, toolchain
//! names, distribution manifests, component selection and the bookkeeping
//! that the installer performs around them.

pub mod outside;
pub mod text;
pub mod triple;
pub mod host;
pub mod toolchain;
pub mod manifest;
pub mod prefix;
pub mod manifestation;
pub mod transaction;
pub mod package;
pub mod unpack;
pub mod temp;
pub mod download;
pub mod env_var;
pub mod tools;
pub mod self_update;
pub mod home;
pub mod errors;
pub mod dist;
pub mod status;
pub mod utils_error;
pub mod commands;
pub mod self_install;
pub mod legacy_toolchain;
pub mod install;
pub mod notifications;
