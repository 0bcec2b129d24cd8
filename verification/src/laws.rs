//! What holds of every pair, of every plan and of every run.

pub mod pairs;
pub mod plans;
pub mod reads;
pub mod runs;
