//! Verified core of the yuuka assistant service.
pub mod chat;
pub mod frames;
pub mod json;
pub mod num;
pub mod order;
pub mod supervisor;
pub mod synapse;
pub mod text;
pub mod timeline;
pub mod web;
pub mod webhook;
pub mod todo;
pub mod tools;
