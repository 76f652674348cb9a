//! A small audio-pipeline library: a textual specification language for
//! chains of signal components (sources, processors, analysers and one
//! parallel mixing construct), and an engine that threads a sample buffer
//! through such a chain.
//!
//! Sample values themselves are kept abstract: the engine is generic over
//! the sample type, and callers supply the sample arithmetic as a bundle of
//! closures (see `samples::SampleOps`). Everything the library decides —
//! the grammar, parameter validation, component construction, the
//! source-first structural rule, and the run-time empty-buffer guard — is
//! verified, and every buffer the engine produces is related element-wise
//! to the supplied arithmetic.

pub mod analysers;
pub mod component;
pub mod composite;
pub mod context;
pub mod errors;
pub mod factory;
pub mod number;
pub mod params;
pub mod parser;
pub mod pipeline;
pub mod processors;
pub mod samples;
pub mod sources;
pub mod text;
