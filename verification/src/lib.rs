//! Verified building blocks of a BuildKit LLB frontend: the protobuf
//! message shapes, the file and merge operation builders, platform
//! identifiers, the frontend result requests and the OCI image config model.

pub mod pb;
pub mod platform;
pub mod text;
pub mod map;
pub mod utils;
pub mod path;
pub mod copy;
pub mod mkdir;
pub mod sequence;
pub mod merge;
pub mod context;
pub mod mount;
pub mod unixpath;
pub mod keyset;
pub mod oci;
pub mod json;
pub mod frontend;
pub mod bridge;
