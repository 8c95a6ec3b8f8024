//! Columnar array kernels: take over run-end arrays, decimal casts, compression schemes, file
//! write strategies, object-store reads and writes, and export to the Arrow layout.
pub mod arrow;
pub mod bits;
pub mod compressor;
pub mod decimal;
pub mod dtype;
pub mod error;
pub mod explain;
pub mod file;
pub mod int256;
pub mod io;
pub mod primitive;
pub mod runend;
pub mod text;
pub mod validity;
