pub mod commands;
pub mod config;
pub mod error;
pub mod hooks;
pub mod http;
pub mod json;
pub mod text;
