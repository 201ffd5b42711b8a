pub mod api;
pub mod commands;
pub mod config;
pub mod navigator;
pub mod registry;
pub mod resolve;
