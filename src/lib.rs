//! Decision core of a zero-knowledge identity check: decoding of the
//! machine-readable-zone fields carried by a proof's public signals,
//! tolerant cross-checks against a signed document, and the fixed-shape
//! verification outcome.

pub mod unpack;
pub mod mrz;
pub mod matching;
pub mod groth16;
pub mod text;
pub mod layout;
pub mod orchestrator;
