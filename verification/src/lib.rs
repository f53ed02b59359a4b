//! Visual regression comparison: discovers the images of two directory
//! trees, classifies each changed image against a tolerance, assembles the
//! reports, and collects spans for later export.
//!
//! The library decides and computes; it reads no file and writes none. The
//! caller lists the files of the two trees, compares the images that
//! `DetectedImages::targets` names, and writes what `run` hands back.

pub mod attributes;
pub mod compare;
pub mod dir;
pub mod discovery;
pub mod encode;
pub mod error;
pub mod path_set;
pub mod pipeline;
pub mod report;
pub mod span_id;
pub mod text;
pub mod trace_laws;
pub mod tracing_layer;

pub use crate::error::CompareError;
pub use crate::pipeline::run;
pub use crate::pipeline::Options;
pub use crate::report::JsonReport;
