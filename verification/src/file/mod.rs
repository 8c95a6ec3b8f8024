//! How files are laid out when they are written.
pub mod encodings;
pub mod field_map;
pub mod strategy;
