//! Core logic of a policy-gated boot-media forge: device-graph records,
//! a safety gate for destructive operations, chunked imaging primitives,
//! content-addressed report bundles with keyed signatures, pack manifests,
//! a FAT32 layout planner, and the workflow engine's validation and
//! dispatch rules.
//!
//! Everything here computes over plain values; reading devices, touching
//! the filesystem and calling platform services is left to callers.

pub mod bootload;
pub mod content;
pub mod device;
pub mod digest;
pub mod engine;
pub mod errors;
pub mod fat32;
pub mod hex;
pub mod hmac;
pub mod hostinfo;
pub mod imaging;
pub mod jsonout;
pub mod macver;
pub mod pack;
pub mod patcher;
pub mod plugin;
pub mod preflight;
pub mod report;
pub mod safety;
pub mod text;
pub mod wimmeta;
pub mod workflow;

pub use errors::{ErrorKind, ForgeError};
