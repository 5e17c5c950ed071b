//! Streaming analysis of JVM heap dumps in the HPROF binary format.
pub mod primitives;
pub mod records;
pub mod strings;
pub mod grammar;
pub mod record_parser;
pub mod errors;
pub mod header;
pub mod stream_parser;
pub mod keyed;
pub mod recorder;
pub mod utils;
pub mod rendered_result;
pub mod args;
pub mod stability;
