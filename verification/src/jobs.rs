//! The job queue: its mathematical model, the store itself, the decisions of
//! the workers, the answers of the request layer, and what holds of them.

pub mod handler;
pub mod laws;
pub mod model;
pub mod queue;
pub mod workers;
