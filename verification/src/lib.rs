//! Deploy tooling for the Aoraki cloud.
pub mod cli;
pub mod commands;
pub mod config;
pub mod config_file;
pub mod console;
pub mod context;
pub mod document;
pub mod failure;
pub mod gateway;
pub mod hook;
pub mod http;
pub mod json;
pub mod names;
pub mod reports;
pub mod ssh;
pub mod text;
pub mod util;
