//! A tree-to-text code generator: it walks an already-parsed program, once and
//! in document order, and prints equivalent JavaScript source.  The exact text
//! produced for every node kind is pinned down by the spec functions in
//! `lowering`, and the emitter in `emitter` is proved to produce it.

pub mod ast;
pub mod text;
pub mod lowering;
pub mod emitter;
pub mod laws;
