use vstd::prelude::*;

use crate::error::AppError;
use crate::util::text::{first_line, first_line_of, texts_of};

verus! {

/// The arguments with which gallery-dl is run: files go straight into
/// `output_dir`, modification times are not restored, and last the link.
pub open spec fn gallery_dl_args_for(output_dir: Seq<char>, url: Seq<char>) -> Seq<Seq<char>> {
    seq!["-D"@, output_dir, "--no-mtime"@, url]
}

/// The arguments with which gallery-dl is run to fetch `url` into `output_dir`.
pub fn gallery_dl_args(output_dir: &str, url: &str) -> (r: Vec<String>)
    ensures
        texts_of(r@) == gallery_dl_args_for(output_dir@, url@),
{
    let mut args: Vec<String> = Vec::new();
    args.push(String::from_str("-D"));
    args.push(String::from_str(output_dir));
    args.push(String::from_str("--no-mtime"));
    args.push(String::from_str(url));
    assert(texts_of(args@) =~= gallery_dl_args_for(output_dir@, url@));
    args
}

/// The error for gallery-dl failing to start: an install hint where the
/// program does not exist, else the I/O error's text.
pub fn spawn_failure(url: &str, not_found: bool, err_text: &str) -> (r: AppError)
    ensures
        r matches AppError::Download { url: u, reason } && u@ == url@ && reason@ == if not_found {
            "gallery-dl not found — install with: pip install gallery-dl"@
        } else {
            "gallery-dl: "@ + err_text@
        },
{
    let reason = if not_found {
        String::from_str("gallery-dl not found — install with: pip install gallery-dl")
    } else {
        let mut r = String::from_str("gallery-dl: ");
        r.append(err_text);
        r
    };
    AppError::Download { url: url.to_owned(), reason }
}

/// The error for a gallery-dl run that did not succeed: the first line of
/// what it wrote to standard error.
pub fn process_failure(url: &str, stderr: &str) -> (r: AppError)
    ensures
        r matches AppError::Download { url: u, reason } && u@ == url@ && reason@ == "gallery-dl: "@
            + first_line(stderr@),
{
    let mut reason = String::from_str("gallery-dl: ");
    let line = first_line_of(stderr);
    reason.append(line.as_str());
    AppError::Download { url: url.to_owned(), reason }
}

} // verus!
