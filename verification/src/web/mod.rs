//! The web layer's decisions: cross-site request checks, reading credentials
//! from headers, the user and scope a request acts for, static file caching
//! and the response envelope.
pub mod csrf;
pub mod auth;
pub mod envelope;
pub mod scope;
pub mod site;
