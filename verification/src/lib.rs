//! Generator for the synthetic JavaScript entrypoint files that bundle an
//! ordered chain of layout modules into one composed React component, wire in
//! a live-reload hook, and append mode-specific bootstrap code (client-side
//! hydration or a server-side render function with a version-dependent import).
//!
//! The generated text is modelled line by line in [`model`], produced by
//! [`code_gen::build_entrypoint`], and its structural guarantees are proved in
//! [`laws`].

pub mod code_gen;
pub mod laws;
pub mod model;
