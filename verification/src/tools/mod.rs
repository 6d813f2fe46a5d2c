//! The assistant's tool registry: which declarations a turn sees and where
//! a call goes.
pub mod registry;
