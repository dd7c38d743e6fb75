pub mod book;
pub mod command;
pub mod config;
pub mod engine;
pub mod history;
pub mod market;
pub mod payout;
pub mod scan;
pub mod series;
pub mod signal;
pub mod stats;
pub mod wire;
