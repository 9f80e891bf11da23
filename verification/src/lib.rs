//! Extraction framework for raw seismic sensor recordings.
//!
//! The crate validates declarative conversion plans, expands them into
//! per-file processable units, and decodes each unit's already-loaded
//! content (binary SAC records or ASCII strong-motion logs) into one
//! normalized intermediate representation.

pub mod analysis_config;
pub mod cli;
pub mod error;
pub mod extractor;
pub mod f32_bits;
pub mod logging;
pub mod model;
pub mod scale_factor;
pub mod text;
pub mod util;
