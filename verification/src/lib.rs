//! netspd: the verified core of a terminal network speed test.

pub mod cli;
pub mod config;
pub mod controller;
pub mod errors;
pub mod headless;
pub mod history;
pub mod metrics;
pub mod models;
pub mod network;
pub mod prom;
pub mod providers;
pub mod scheduler;
pub mod score;
pub mod serve;
pub mod state;
pub mod text;
