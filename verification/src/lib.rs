pub mod bot;
pub mod config;
pub mod downloader;
pub mod error;
pub mod platform;
pub mod sender;
pub mod util;
