//! Outside services posting to a user: endpoints, the receiving side and
//! its rate limit, and the reading of management requests.
pub mod endpoint;
pub mod rate;
pub mod request;
pub mod receive;
