pub mod commands;
pub mod handlers;
