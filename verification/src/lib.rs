//! A harness for benchmarking perceptual image hashes: modifications that
//! perturb an image, hash algorithms that fingerprint it, and the bit-exact
//! byte and text forms of a fingerprint.

pub mod config;
pub mod fingerprint;
pub mod imagehash;
pub mod imagemodify;
pub mod raster;

pub use config::Config;
pub use config::ConfigError;
