//! Dump and restore of a persistent update queue.

pub mod dump;
pub mod error;
pub mod gate;
pub mod laws;
pub mod lines;
pub mod load;
pub mod paths;
pub mod plan;
pub mod record;
pub mod run;
pub mod step;
pub mod store;
