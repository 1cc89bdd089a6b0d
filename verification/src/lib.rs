//! A source-to-source transformer that turns a function declaration into a
//! caching (memoizing) variant, driven by a small configuration grammar
//! attached to the declaration.
//!
//! The pipeline has five parts: the option parser ([`options`]) reads the
//! configuration token sequence; the signature analyzer ([`signature`])
//! validates the declaration's parameter list; the strategy selector
//! ([`store`]) picks a storage container and its access methods; the
//! synthesizer ([`synth`]) assembles the derived declarations; and
//! [`runtime`] gives the cache semantics that the synthesized wrapper
//! relies on, with the laws that hold of it.

pub mod tokens;
pub mod diag;
pub mod options;
pub mod signature;
pub mod store;
pub mod synth;
pub mod runtime;

pub use synth::transform;
