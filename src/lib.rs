//! Watches a job-listing page: extracts listing links, remembers which ones
//! were already announced, and builds the notification for the new ones.

pub mod message;
pub mod notify;
pub mod extract;
pub mod store;
pub mod cycle;
