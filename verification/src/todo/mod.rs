//! The task domain: task records, the parent/subtask forest, argument checking
//! for the assistant's task tools and the column updates they lead to.
pub mod dto;
pub mod tree;
pub mod args;
pub mod tags;
pub mod tools;
pub mod tally;
pub mod store;
pub mod routes;
pub mod cron;
pub mod replies;
