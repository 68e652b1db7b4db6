//! Reconstruction engine for content-addressed chunk archives.
//!
//! A manifest describes target assets as sequences of named chunks placed at
//! byte offsets. The library decodes the local chunk index, slices chunk
//! payloads out of blob files, reassembles assets into byte buffers, and
//! builds the per-asset patch plan that an external binary patcher consumes.

pub mod assemble;
pub mod codec;
pub mod extract;
pub mod hpatchz;
pub mod index;
pub mod manifest;
pub mod plan;
pub mod serialize;
pub mod slice;
pub mod util;

