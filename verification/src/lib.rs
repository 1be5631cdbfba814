//! Hides a password-protected byte payload in the least-significant bits of
//! a raster image's channel values, and recovers it again.

pub mod bits;
pub mod carrier;
pub mod container;
pub mod engine;
pub mod errors;
pub mod kdf;
pub mod transport;
