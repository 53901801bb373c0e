//! Crossword solve tracking: the date partitioner, the history and detail
//! reconciliation rules, the cursor bookkeeping and the per-weekday sliding
//! window statistics, each with a machine-checked contract.

pub mod database;
pub mod date;
pub mod nytimes;
pub mod stats;
pub mod tracker;
