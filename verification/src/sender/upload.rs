use vstd::prelude::*;

use crate::config::Config;
use crate::downloader::types::{MediaItem, MediaType};

verus! {

/// The largest video, in bytes, that is sent as a video (50 MB).
pub const VIDEO_SIZE_LIMIT: u64 = 50 * 1024 * 1024;

/// The largest photo, in bytes, that is sent as a photo (10 MB).
pub const PHOTO_SIZE_LIMIT: u64 = 10 * 1024 * 1024;

/// The Telegram method by which a file is sent.
#[derive(Debug, Clone, Copy, PartialEq, Eq, Structural)]
pub enum SendMethod {
    Photo,
    Video,
    Document,
}

/// How an item is sent: a photo up to 10 MB as a photo, a video up to 50 MB
/// as a video, anything larger as a document.
pub open spec fn send_method_for(item: MediaItem) -> SendMethod {
    match item.media_type {
        MediaType::Photo => if item.size_bytes > PHOTO_SIZE_LIMIT {
            SendMethod::Document
        } else {
            SendMethod::Photo
        },
        MediaType::Video => if item.size_bytes > VIDEO_SIZE_LIMIT {
            SendMethod::Document
        } else {
            SendMethod::Video
        },
    }
}

/// Sends downloaded media to a chat.
pub struct MediaSender {
    config: Config,
}

impl MediaSender {
    /// The configuration the sender was made with.
    pub closed spec fn config(&self) -> Config {
        self.config
    }

    /// A sender for `config`.
    pub fn new(config: &Config) -> (r: Self)
        ensures
            r.config() == *config,
    {
        MediaSender { config: config.duplicate() }
    }

    /// The Telegram method by which `item` is sent.
    pub fn send_method(&self, item: &MediaItem) -> (r: SendMethod)
        ensures
            r == send_method_for(*item),
    {
        match item.media_type {
            MediaType::Photo => if item.size_bytes > PHOTO_SIZE_LIMIT {
                SendMethod::Document
            } else {
                SendMethod::Photo
            },
            MediaType::Video => if item.size_bytes > VIDEO_SIZE_LIMIT {
                SendMethod::Document
            } else {
                SendMethod::Video
            },
        }
    }
}

/// A file is sent as a document exactly when it is larger than the limit of
/// its kind; otherwise it goes as the photo or video that it is.
pub proof fn law_size_aware_sending(item: MediaItem)
    ensures
        (send_method_for(item) == SendMethod::Document) == (match item.media_type {
            MediaType::Photo => item.size_bytes > 10 * 1024 * 1024,
            MediaType::Video => item.size_bytes > 50 * 1024 * 1024,
        }),
        item.media_type == MediaType::Photo ==> send_method_for(item) != SendMethod::Video,
        item.media_type == MediaType::Video ==> send_method_for(item) != SendMethod::Photo,
{
}

} // verus!
