//! Compression schemes and the context that they are tried in.
pub mod ctx;
pub mod for_;
pub mod fsst_pretrained;
pub mod scheme;
pub mod zigzag;
