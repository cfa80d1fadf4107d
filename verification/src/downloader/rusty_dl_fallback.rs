use vstd::prelude::*;

use crate::error::AppError;

verus! {

/// The error for a failed rusty_dl step: the crate's name and its error text.
pub fn download_failure(url: &str, err_text: &str) -> (r: AppError)
    ensures
        r matches AppError::Download { url: u, reason } && u@ == url@ && reason@ == "rusty_dl: "@
            + err_text@,
{
    let mut reason = String::from_str("rusty_dl: ");
    reason.append(err_text);
    AppError::Download { url: url.to_owned(), reason }
}

} // verus!
