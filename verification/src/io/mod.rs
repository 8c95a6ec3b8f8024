//! Reads and writes through an object store: which requests are made, and what their answers
//! become. Sending the requests is left to the caller.
pub mod chunk;
pub mod read_at;
pub mod write;
