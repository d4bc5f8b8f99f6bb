//! An in-memory, priority-ordered job queue with retries and expiration,
//! together with the decisions of the workers that drain it.

pub mod jobs;
pub mod models;
mod random;
pub mod scan;
pub mod text;
pub mod time;
pub mod utils;
