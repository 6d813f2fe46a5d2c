//! The synapse memory: the lexical n-gram embedder's integer core, the
//! bookkeeping of which memory ids live in which scope, and the records the
//! engine hands out. Scoring and vector arithmetic work on floats and stay
//! with the engine around this library.
pub mod embed;
pub mod records;
pub mod ids;
