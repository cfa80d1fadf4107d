use vstd::prelude::*;

use crate::error::AppError;

verus! {

/// The error for a failed rusty_ytdl step: the crate's name and its error text.
pub fn download_failure(url: &str, err_text: &str) -> (r: AppError)
    ensures
        r matches AppError::Download { url: u, reason } && u@ == url@ && reason@ == "rusty_ytdl: "@
            + err_text@,
{
    let mut reason = String::from_str("rusty_ytdl: ");
    reason.append(err_text);
    AppError::Download { url: url.to_owned(), reason }
}

/// The file name under which rusty_ytdl saves a video: its id and `.mp4`.
pub fn video_file_name(video_id: &str) -> (r: String)
    ensures
        r@ == video_id@ + ".mp4"@,
{
    let mut name = String::from_str(video_id);
    name.append(".mp4");
    name
}

} // verus!
