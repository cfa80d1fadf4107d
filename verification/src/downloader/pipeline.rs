use vstd::prelude::*;

use crate::config::Config;
use crate::platform::matcher::Platform;

use super::ytdlp::YtDlpDownloader;

verus! {

/// Downloads a link, falling back to other downloaders when yt-dlp fails.
pub struct DownloadPipeline {
    ytdlp: YtDlpDownloader,
}

impl View for DownloadPipeline {
    type V = Option<Seq<char>>;

    /// The cookies file handed to yt-dlp, if any.
    closed spec fn view(&self) -> Option<Seq<char>> {
        self.ytdlp@
    }
}

impl DownloadPipeline {
    /// A pipeline whose yt-dlp uses the cookies file of `config`, if any.
    pub fn new(config: &Config) -> (r: Self)
        ensures
            r@ == match config.cookies_path {
                Some(p) => Some(p@),
                None => None::<Seq<char>>,
            },
    {
        DownloadPipeline { ytdlp: YtDlpDownloader::new(config) }
    }

    /// The primary downloader.
    pub fn ytdlp(&self) -> (r: &YtDlpDownloader)
        ensures
            r@ == self@,
    {
        &self.ytdlp
    }
}

/// The downloaders that the pipeline can use.
#[derive(Debug, Clone, Copy, PartialEq, Eq, Structural)]
pub enum Backend {
    /// The `yt-dlp` program, for every platform.
    YtDlp,
    /// The rusty_ytdl crate, for YouTube.
    RustyYtdl,
    /// The rusty_dl crate, for YouTube.
    RustyDl,
    /// The `gallery-dl` program, for TikTok, Instagram and Facebook.
    GalleryDl,
}

/// The downloaders tried for a platform, in order: for YouTube yt-dlp, then
/// rusty_ytdl, then rusty_dl; for the others yt-dlp, then gallery-dl.
pub open spec fn backend_chain(p: Platform) -> Seq<Backend> {
    match p {
        Platform::YouTube => seq![Backend::YtDlp, Backend::RustyYtdl, Backend::RustyDl],
        _ => seq![Backend::YtDlp, Backend::GalleryDl],
    }
}

/// The downloader tried after `failed` has failed for platform `p`: the next
/// one in the platform's chain, none after the last one or for a downloader
/// that is not in the chain.
pub open spec fn following_backend(p: Platform, failed: Backend) -> Option<Backend> {
    let chain = backend_chain(p);
    if exists|k: int| 0 <= k < chain.len() - 1 && chain[k] == failed {
        let k = choose|k: int| 0 <= k < chain.len() - 1 && chain[k] == failed;
        Some(chain[k + 1])
    } else {
        None
    }
}

/// The downloader to try after `failed` has failed for platform `p`.
pub fn next_backend(p: Platform, failed: Backend) -> (r: Option<Backend>)
    ensures
        r == following_backend(p, failed),
{
    let ghost chain = backend_chain(p);
    match (p, failed) {
        (Platform::YouTube, Backend::YtDlp) => {
            assert(chain[0] == failed);
            Some(Backend::RustyYtdl)
        },
        (Platform::YouTube, Backend::RustyYtdl) => {
            assert(chain[1] == failed);
            Some(Backend::RustyDl)
        },
        (Platform::YouTube, _) => None,
        (_, Backend::YtDlp) => {
            assert(chain[0] == failed);
            Some(Backend::GalleryDl)
        },
        (_, _) => None,
    }
}

/// The status text shown when the pipeline switches to `b`, if any.
pub open spec fn switch_notice(b: Backend) -> Option<Seq<char>> {
    match b {
        Backend::RustyYtdl => Some("Downloading... (trying alternative 1/2)"@),
        Backend::RustyDl => Some("Downloading... (trying alternative 2/2)"@),
        Backend::GalleryDl => Some("Downloading... (trying alternative)"@),
        Backend::YtDlp => None,
    }
}

/// The status text shown when the pipeline switches to `b`, if any.
pub fn switch_status(b: Backend) -> (r: Option<&'static str>)
    ensures
        match r {
            Some(t) => switch_notice(b) == Some(t@),
            None => switch_notice(b) is None,
        },
{
    match b {
        Backend::RustyYtdl => Some("Downloading... (trying alternative 1/2)"),
        Backend::RustyDl => Some("Downloading... (trying alternative 2/2)"),
        Backend::GalleryDl => Some("Downloading... (trying alternative)"),
        Backend::YtDlp => None,
    }
}

/// The downloaders tried after a failure: for YouTube rusty_ytdl after
/// yt-dlp, rusty_dl after rusty_ytdl, then none; for TikTok, Instagram and
/// Facebook gallery-dl after yt-dlp, then none; and never one that belongs to
/// the other kind of platform.
pub proof fn law_what_comes_after_a_failure(p: Platform, failed: Backend)
    ensures
        p == Platform::YouTube ==> following_backend(p, failed) == match failed {
            Backend::YtDlp => Some(Backend::RustyYtdl),
            Backend::RustyYtdl => Some(Backend::RustyDl),
            _ => None::<Backend>,
        },
        p != Platform::YouTube ==> following_backend(p, failed) == match failed {
            Backend::YtDlp => Some(Backend::GalleryDl),
            _ => None::<Backend>,
        },
{
    let chain = backend_chain(p);
    if exists|k: int| 0 <= k < chain.len() - 1 && chain[k] == failed {
        let k = choose|k: int| 0 <= k < chain.len() - 1 && chain[k] == failed;
        if p == Platform::YouTube {
            assert(k == 0 || k == 1);
        } else {
            assert(k == 0);
        }
    } else {
        if p == Platform::YouTube {
            assert(chain[0] == Backend::YtDlp);
            assert(chain[1] == Backend::RustyYtdl);
        } else {
            assert(chain[0] == Backend::YtDlp);
        }
    }
}

/// Every platform's chain starts with yt-dlp; each downloader of the chain is
/// followed by the next one; the last is followed by none; no downloader
/// occurs twice; YouTube never goes to gallery-dl and the other platforms
/// never to the YouTube crates.
pub proof fn law_fallback_chain(p: Platform)
    ensures
        backend_chain(p)[0] == Backend::YtDlp,
        forall|k: int|
            0 <= k < backend_chain(p).len() - 1 ==> following_backend(p, #[trigger] backend_chain(p)[k])
                == Some(backend_chain(p)[k + 1]),
        following_backend(p, backend_chain(p).last()) is None,
        forall|i: int, j: int|
            0 <= i < j < backend_chain(p).len() ==> backend_chain(p)[i] != backend_chain(p)[j],
        p == Platform::YouTube ==> !backend_chain(p).contains(Backend::GalleryDl),
        p != Platform::YouTube ==> !backend_chain(p).contains(Backend::RustyYtdl)
            && !backend_chain(p).contains(Backend::RustyDl),
{
    let chain = backend_chain(p);
    assert forall|k: int| 0 <= k < chain.len() - 1 implies following_backend(p, #[trigger] chain[k])
        == Some(chain[k + 1]) by {
        let w = choose|m: int| 0 <= m < chain.len() - 1 && chain[m] == chain[k];
        assert(w == k);
    }
    if p == Platform::YouTube {
        assert(!chain.contains(Backend::GalleryDl)) by {
            if chain.contains(Backend::GalleryDl) {
                let i = choose|i: int| 0 <= i < chain.len() && chain[i] == Backend::GalleryDl;
            }
        }
    } else {
        assert(!chain.contains(Backend::RustyYtdl)) by {
            if chain.contains(Backend::RustyYtdl) {
                let i = choose|i: int| 0 <= i < chain.len() && chain[i] == Backend::RustyYtdl;
            }
        }
        assert(!chain.contains(Backend::RustyDl)) by {
            if chain.contains(Backend::RustyDl) {
                let i = choose|i: int| 0 <= i < chain.len() && chain[i] == Backend::RustyDl;
            }
        }
    }
}

} // verus!
