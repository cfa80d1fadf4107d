pub mod gallery_dl_fallback;
pub mod pipeline;
pub mod rusty_dl_fallback;
pub mod rusty_ytdl_fallback;
pub mod types;
pub mod ytdlp;
