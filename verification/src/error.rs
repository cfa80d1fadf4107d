use vstd::prelude::*;

use crate::util::text::{decimal, push_decimal, push_signed_decimal, signed_decimal};

verus! {

#[verifier::external_type_specification]
#[verifier::external_body]
pub struct ExIoError(std::io::Error);

#[verifier::external_type_specification]
#[verifier::external_body]
pub struct ExJsonError(serde_json::Error);

/// What can go wrong while serving a download request.
#[derive(Debug)]
pub enum AppError {
    Download { url: String, reason: String },
    YtDlpProcess { code: i32, stderr: String },
    YtDlpNotFound,
    MetadataParse(String),
    UnsupportedPlatform(String),
    Telegram(String),
    RateLimited { seconds: u64 },
    NoMedia(String),
    Io(std::io::Error),
    Json(serde_json::Error),
}

/// The text of an I/O error, as its `Display` writes it (std's
/// `io::Error::to_string`). Nothing is claimed of it: it may come from the
/// operating system.
#[verifier::external_body]
fn io_error_text(e: &std::io::Error) -> String {
    e.to_string()
}

/// The text of a JSON error, as its `Display` writes it (serde_json's
/// `Error::to_string`). Nothing is claimed of it.
#[verifier::external_body]
fn json_error_text(e: &serde_json::Error) -> String {
    e.to_string()
}

impl AppError {
    /// The message of the error, for every variant whose text this crate
    /// writes (all but `Io` and `Json`, which show the wrapped error's text).
    pub open spec fn spec_message(&self) -> Seq<char> {
        match self {
            AppError::Download { url, reason } => "download failed for "@ + url@ + ": "@ + reason@,
            AppError::YtDlpProcess { code, stderr } => "yt-dlp exited with code "@ + signed_decimal(
                *code as int,
            ) + ": "@ + stderr@,
            AppError::YtDlpNotFound => "yt-dlp not found — is it installed and on PATH?"@,
            AppError::MetadataParse(m) => "failed to parse yt-dlp metadata: "@ + m@,
            AppError::UnsupportedPlatform(u) => "unsupported platform for URL: "@ + u@,
            AppError::Telegram(m) => "telegram API error: "@ + m@,
            AppError::RateLimited { seconds } => "rate limited — please wait "@ + decimal(
                *seconds as nat,
            ) + " seconds"@,
            AppError::NoMedia(u) => "no downloadable media found at "@ + u@,
            AppError::Io(_) => Seq::empty(),
            AppError::Json(_) => Seq::empty(),
        }
    }

    /// The text shown for this error.
    pub fn message(&self) -> (r: String)
        ensures
            !(self is Io) && !(self is Json) ==> r@ == self.spec_message(),
    {
        match self {
            AppError::Download { url, reason } => {
                let mut s = String::from_str("download failed for ");
                s.append(url.as_str());
                s.append(": ");
                s.append(reason.as_str());
                s
            },
            AppError::YtDlpProcess { code, stderr } => {
                let mut s = String::from_str("yt-dlp exited with code ");
                push_signed_decimal(&mut s, *code);
                s.append(": ");
                s.append(stderr.as_str());
                s
            },
            AppError::YtDlpNotFound => String::from_str(
                "yt-dlp not found — is it installed and on PATH?",
            ),
            AppError::MetadataParse(m) => {
                let mut s = String::from_str("failed to parse yt-dlp metadata: ");
                s.append(m.as_str());
                s
            },
            AppError::UnsupportedPlatform(u) => {
                let mut s = String::from_str("unsupported platform for URL: ");
                s.append(u.as_str());
                s
            },
            AppError::Telegram(m) => {
                let mut s = String::from_str("telegram API error: ");
                s.append(m.as_str());
                s
            },
            AppError::RateLimited { seconds } => {
                let mut s = String::from_str("rate limited — please wait ");
                push_decimal(&mut s, *seconds);
                s.append(" seconds");
                s
            },
            AppError::NoMedia(u) => {
                let mut s = String::from_str("no downloadable media found at ");
                s.append(u.as_str());
                s
            },
            AppError::Io(e) => io_error_text(e),
            AppError::Json(e) => json_error_text(e),
        }
    }
}

} // verus!
