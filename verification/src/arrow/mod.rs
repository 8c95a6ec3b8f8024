//! Export of arrays to the Arrow C device layout.
//!
//! An export is a tree of [`array::ArrowArray`]s whose buffers are still in host memory; uploading
//! them to a device is left to the caller.
pub mod array;
pub mod binary;
pub mod buffers;
pub mod device;
pub mod export;
pub mod laws;
