//! Keeping the long-lived services running: how a service ended decides
//! whether it is restarted and after what delay, and the start-up checks.
pub mod restart;
pub mod startup;
pub mod policy;
pub mod backoff;
pub mod desktop;
