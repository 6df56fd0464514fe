pub mod text;
pub mod textmap;
pub mod services;
pub mod snapshot;
pub mod ports;
pub mod context;
pub mod config;
pub mod style;
pub mod tui;
pub mod cli;
pub mod report;
