use vstd::prelude::*;

use crate::config::Config;
use crate::error::AppError;
use crate::platform::matcher::Platform;
use crate::util::text::{
    lemma_trim_idempotent, split_chars, split_on, str_chars, string_of, texts_of, trim, trimmed,
    views_of,
};

verus! {

/// Downloads through the `yt-dlp` program.
pub struct YtDlpDownloader {
    cookies_path: Option<String>,
}

impl View for YtDlpDownloader {
    type V = Option<Seq<char>>;

    /// The cookies file handed to yt-dlp, if any.
    closed spec fn view(&self) -> Option<Seq<char>> {
        match self.cookies_path {
            Some(p) => Some(p@),
            None => None,
        }
    }
}

/// The yt-dlp format selector used for a platform: mp4 up to 1080p for
/// YouTube, to stay under Telegram's 50 MB limit; mp4 where there is one for
/// TikTok and Facebook; the best format for Instagram.
pub open spec fn format_selector(p: Platform) -> Seq<char> {
    match p {
        Platform::YouTube => "bestvideo[height<=1080][ext=mp4]+bestaudio[ext=m4a]/best[ext=mp4]/best"@,
        Platform::TikTok => "best[ext=mp4]/best"@,
        Platform::Instagram => "best"@,
        Platform::Facebook => "best[ext=mp4]/best"@,
    }
}

/// The arguments of one yt-dlp run: no playlists, an info file and JSON
/// metadata on standard output, the output template, the platform's format,
/// the cookies file where there is one, and last the link.
pub open spec fn ytdlp_args(
    cookies: Option<Seq<char>>,
    url: Seq<char>,
    platform: Platform,
    output_template: Seq<char>,
) -> Seq<Seq<char>> {
    seq![
        "--no-playlist"@,
        "--write-info-json"@,
        "--print-json"@,
        "-o"@,
        output_template,
        "-f"@,
        format_selector(platform),
    ] + match cookies {
        Some(c) => seq!["--cookies"@, c],
        None => Seq::empty(),
    } + seq![url]
}

/// The arguments ask yt-dlp for one video, its info file and JSON metadata,
/// name the output after the template, and pick the format by platform: mp4
/// up to 1080p with m4a audio for YouTube, mp4 where there is one for TikTok
/// and Facebook, and the best format for Instagram.
pub proof fn law_arguments_per_platform(
    cookies: Option<Seq<char>>,
    url: Seq<char>,
    platform: Platform,
    output_template: Seq<char>,
)
    ensures
        ytdlp_args(cookies, url, platform, output_template).take(7) == seq![
            "--no-playlist"@,
            "--write-info-json"@,
            "--print-json"@,
            "-o"@,
            output_template,
            "-f"@,
            match platform {
                Platform::YouTube => "bestvideo[height<=1080][ext=mp4]+bestaudio[ext=m4a]/best[ext=mp4]/best"@,
                Platform::Instagram => "best"@,
                _ => "best[ext=mp4]/best"@,
            },
        ],
{
    assert(ytdlp_args(cookies, url, platform, output_template).take(7) =~= seq![
        "--no-playlist"@,
        "--write-info-json"@,
        "--print-json"@,
        "-o"@,
        output_template,
        "-f"@,
        format_selector(platform),
    ]);
}

/// For every platform, a configured cookies file is handed to yt-dlp: the
/// arguments are those without cookies with `--cookies` and the file put just
/// before the link. Without a cookies file, none of the fixed options is
/// `--cookies`, and the link comes last in either case.
pub proof fn law_cookies_are_handed_on(
    c: Seq<char>,
    url: Seq<char>,
    platform: Platform,
    output_template: Seq<char>,
)
    ensures
        ytdlp_args(Some(c), url, platform, output_template) == ytdlp_args(
            None,
            url,
            platform,
            output_template,
        ).take(7) + seq!["--cookies"@, c, url],
        ytdlp_args(Some(c), url, platform, output_template).len() == 10,
        ytdlp_args(Some(c), url, platform, output_template)[7] == "--cookies"@,
        ytdlp_args(Some(c), url, platform, output_template)[8] == c,
        ytdlp_args(Some(c), url, platform, output_template).last() == url,
        ytdlp_args(None, url, platform, output_template).len() == 8,
        ytdlp_args(None, url, platform, output_template).last() == url,
        forall|k: int|
            0 <= k < 7 && k != 4 ==> #[trigger] ytdlp_args(None, url, platform, output_template)[k]
                != "--cookies"@,
{
    reveal_strlit("--cookies");
    reveal_strlit("--no-playlist");
    reveal_strlit("--write-info-json");
    reveal_strlit("--print-json");
    reveal_strlit("-o");
    reveal_strlit("-f");
    reveal_strlit("bestvideo[height<=1080][ext=mp4]+bestaudio[ext=m4a]/best[ext=mp4]/best");
    reveal_strlit("best[ext=mp4]/best");
    reveal_strlit("best");
    let with = ytdlp_args(Some(c), url, platform, output_template);
    let without = ytdlp_args(None, url, platform, output_template);
    assert(with =~= without.take(7) + seq!["--cookies"@, c, url]);
    assert forall|k: int| 0 <= k < 7 && k != 4 implies #[trigger] without[k] != "--cookies"@ by {
        assert(without[k].len() != "--cookies"@.len());
    }
}

/// The yt-dlp format selector for a platform.
pub fn platform_format(p: Platform) -> (r: &'static str)
    ensures
        r@ == format_selector(p),
{
    match p {
        Platform::YouTube => "bestvideo[height<=1080][ext=mp4]+bestaudio[ext=m4a]/best[ext=mp4]/best",
        Platform::TikTok => "best[ext=mp4]/best",
        Platform::Instagram => "best",
        Platform::Facebook => "best[ext=mp4]/best",
    }
}

impl YtDlpDownloader {
    /// A downloader that hands yt-dlp the cookies file of `config`, if any.
    pub fn new(config: &Config) -> (r: Self)
        ensures
            r@ == match config.cookies_path {
                Some(p) => Some(p@),
                None => None::<Seq<char>>,
            },
    {
        YtDlpDownloader {
            cookies_path: match &config.cookies_path {
                Some(p) => Some(p.clone()),
                None => None,
            },
        }
    }

    /// The arguments with which yt-dlp is run to fetch `url` into files named
    /// after `output_template`.
    pub fn command_args(&self, url: &str, platform: Platform, output_template: &str) -> (r: Vec<
        String,
    >)
        ensures
            texts_of(r@) == ytdlp_args(self@, url@, platform, output_template@),
    {
        let mut args: Vec<String> = Vec::new();
        args.push(String::from_str("--no-playlist"));
        args.push(String::from_str("--write-info-json"));
        args.push(String::from_str("--print-json"));
        args.push(String::from_str("-o"));
        args.push(String::from_str(output_template));
        args.push(String::from_str("-f"));
        args.push(String::from_str(platform_format(platform)));
        match &self.cookies_path {
            Some(c) => {
                args.push(String::from_str("--cookies"));
                args.push(c.clone());
            },
            None => {},
        }
        args.push(String::from_str(url));
        assert(texts_of(args@) =~= ytdlp_args(self@, url@, platform, output_template@));
        args
    }
}

/// The error for a yt-dlp run that did not succeed: its exit code, or -1 where
/// it was ended by a signal, and what it wrote to standard error.
pub fn process_failure(code: Option<i32>, stderr: String) -> (r: AppError)
    ensures
        r == (AppError::YtDlpProcess {
            code: match code {
                Some(c) => c,
                None => -1i32,
            },
            stderr,
        }),
{
    AppError::YtDlpProcess {
        code: match code {
            Some(c) => c,
            None => -1,
        },
        stderr,
    }
}

/// The error for yt-dlp failing to start: `YtDlpNotFound` where the program
/// does not exist, else the I/O error itself.
pub fn spawn_failure(not_found: bool, err: std::io::Error) -> (r: AppError)
    ensures
        not_found ==> r is YtDlpNotFound,
        !not_found ==> r == AppError::Io(err),
{
    if not_found {
        AppError::YtDlpNotFound
    } else {
        AppError::Io(err)
    }
}

// ---------------------------------------------------------------------------
// yt-dlp's output: one JSON object per line.
// ---------------------------------------------------------------------------

/// The trimmed pieces that are not empty, in order.
pub open spec fn nonempty_trimmed(pieces: Seq<Seq<char>>) -> Seq<Seq<char>>
    decreases pieces.len(),
{
    if pieces.len() == 0 {
        Seq::empty()
    } else {
        let rest = nonempty_trimmed(pieces.drop_last());
        let t = trim(pieces.last());
        if t.len() > 0 {
            rest.push(t)
        } else {
            rest
        }
    }
}

/// The metadata lines of yt-dlp's output: its lines, trimmed, without the
/// empty ones (what `str::lines`, `str::trim` and skipping empty lines give).
pub open spec fn metadata_lines_of(stdout: Seq<char>) -> Seq<Seq<char>> {
    nonempty_trimmed(split_on(stdout, '\n'))
}

/// The lines of yt-dlp's output that hold metadata.
pub fn metadata_lines(stdout: &str) -> (r: Vec<String>)
    ensures
        texts_of(r@) == metadata_lines_of(stdout@),
{
    let chars = str_chars(stdout);
    let pieces = split_chars(chars.as_slice(), '\n');
    let ghost all = views_of(pieces@);
    let mut out: Vec<String> = Vec::new();
    let mut i: usize = 0;
    while i < pieces.len()
        invariant
            all == views_of(pieces@),
            all == split_on(stdout@, '\n'),
            i <= pieces@.len(),
            texts_of(out@) == nonempty_trimmed(all.take(i as int)),
        decreases pieces@.len() - i,
    {
        let t = trimmed(pieces[i].as_slice());
        let ghost before = all.take(i as int);
        let ghost after = all.take(i + 1);
        assert(after.drop_last() =~= before);
        assert(after.last() == pieces@[i as int]@);
        if t.len() > 0 {
            out.push(string_of(t.as_slice()));
        }
        assert(texts_of(out@) =~= nonempty_trimmed(after));
        i = i + 1;
    }
    assert(all.take(pieces@.len() as int) =~= all);
    out
}

proof fn lemma_nonempty_trimmed_clean(pieces: Seq<Seq<char>>)
    ensures
        forall|k: int|
            0 <= k < nonempty_trimmed(pieces).len() ==> (#[trigger] nonempty_trimmed(pieces)[k]).len()
                > 0 && trim(nonempty_trimmed(pieces)[k]) == nonempty_trimmed(pieces)[k],
    decreases pieces.len(),
{
    if pieces.len() > 0 {
        let rest = nonempty_trimmed(pieces.drop_last());
        let r = nonempty_trimmed(pieces);
        lemma_nonempty_trimmed_clean(pieces.drop_last());
        lemma_trim_idempotent(pieces.last());
        assert forall|k: int| 0 <= k < r.len() implies (#[trigger] r[k]).len() > 0 && trim(r[k]) == r[k] by {
            if k < rest.len() {
                assert(r[k] == rest[k]);
            }
        }
    }
}

proof fn lemma_nonempty_trimmed_filter(pieces: Seq<Seq<char>>)
    ensures
        nonempty_trimmed(pieces) == pieces.map_values(|p: Seq<char>| trim(p)).filter(
            |l: Seq<char>| l.len() > 0,
        ),
    decreases pieces.len(),
{
    let tr = pieces.map_values(|p: Seq<char>| trim(p));
    if pieces.len() > 0 {
        lemma_nonempty_trimmed_filter(pieces.drop_last());
        assert(tr =~= pieces.drop_last().map_values(|p: Seq<char>| trim(p)).push(trim(pieces.last())));
        pieces.drop_last().map_values(|p: Seq<char>| trim(p)).lemma_filter_push(
            trim(pieces.last()),
            |l: Seq<char>| l.len() > 0,
        );
    } else {
        reveal(Seq::filter);
        assert(tr =~= Seq::<Seq<char>>::empty());
    }
}

/// The metadata lines of an output are all of its lines (the pieces between
/// `\n`s), trimmed, in order, except those that are empty after trimming.
pub proof fn law_metadata_lines_are_the_nonblank_lines(stdout: Seq<char>)
    ensures
        metadata_lines_of(stdout) == split_on(stdout, '\n').map_values(|p: Seq<char>| trim(p)).filter(
            |l: Seq<char>| l.len() > 0,
        ),
{
    lemma_nonempty_trimmed_filter(split_on(stdout, '\n'));
}

/// Every metadata line handed on is non-empty and has no white space at
/// either end.
pub proof fn law_metadata_lines_are_trimmed(stdout: Seq<char>)
    ensures
        forall|k: int|
            0 <= k < metadata_lines_of(stdout).len() ==> (#[trigger] metadata_lines_of(stdout)[k]).len()
                > 0 && trim(metadata_lines_of(stdout)[k]) == metadata_lines_of(stdout)[k],
{
    lemma_nonempty_trimmed_clean(split_on(stdout, '\n'));
}

/// The most bytes of a metadata line quoted in an error message.
pub const LINE_EXCERPT_BYTES: usize = 200;

/// How many bytes UTF-8 takes for `c`.
pub open spec fn utf8_width(c: char) -> int {
    if (c as u32) < 0x80 {
        1
    } else if (c as u32) < 0x800 {
        2
    } else if (c as u32) < 0x10000 {
        3
    } else {
        4
    }
}

/// How many leading characters of `s` fit, in UTF-8, in `budget` bytes: the
/// first 200 bytes of a line, cut back to the last character boundary.
pub open spec fn excerpt_chars(s: Seq<char>, budget: int) -> nat
    decreases s.len(),
{
    if s.len() == 0 || utf8_width(s[0]) > budget {
        0
    } else {
        1 + excerpt_chars(s.drop_first(), budget - utf8_width(s[0]))
    }
}

/// How many bytes UTF-8 takes for the characters `s`.
pub open spec fn utf8_size(s: Seq<char>) -> int
    decreases s.len(),
{
    if s.len() == 0 {
        0
    } else {
        utf8_width(s[0]) + utf8_size(s.drop_first())
    }
}

/// The quoted part of a line is the longest start of it that fits in the
/// budget: it fits, and one character more would not.
pub proof fn law_excerpt_is_longest_fitting_start(s: Seq<char>, budget: int)
    ensures
        excerpt_chars(s, budget) <= s.len(),
        budget >= 0 ==> utf8_size(s.take(excerpt_chars(s, budget) as int)) <= budget,
        excerpt_chars(s, budget) < s.len() ==> utf8_size(s.take(excerpt_chars(s, budget) + 1int))
            > budget,
    decreases s.len(),
{
    let k = excerpt_chars(s, budget);
    if s.len() == 0 || utf8_width(s[0]) > budget {
        assert(s.take(0) =~= Seq::<char>::empty());
        if s.len() > 0 {
            assert(s.take(1).drop_first() =~= Seq::<char>::empty());
            assert(utf8_size(s.take(1).drop_first()) == 0);
        }
    } else {
        let rest = s.drop_first();
        let b = budget - utf8_width(s[0]);
        law_excerpt_is_longest_fitting_start(rest, b);
        assert(s.take(k as int).drop_first() =~= rest.take(k - 1int));
        if k < s.len() {
            assert(s.take(k + 1int).drop_first() =~= rest.take(k as int));
        }
    }
}

fn char_utf8_width(c: char) -> (r: usize)
    ensures
        r == utf8_width(c),
{
    let v = c as u32;
    if v < 0x80 {
        1
    } else if v < 0x800 {
        2
    } else if v < 0x10000 {
        3
    } else {
        4
    }
}

/// The error for a metadata line that is not valid JSON: the JSON error's
/// text, `": "`, and as much of the start of the line as fits in 200 bytes,
/// cut between two characters (all of it if shorter).
pub fn metadata_parse_error(err_text: &str, line: &str) -> (r: AppError)
    ensures
        r matches AppError::MetadataParse(m) && m@ == err_text@ + ": "@ + line@.take(
            excerpt_chars(line@, 200) as int,
        ),
{
    let chars = str_chars(line);
    let n = chars.len();
    let mut i: usize = 0;
    let mut used: usize = 0;
    assert(line@.skip(0) =~= line@);
    while i < n && char_utf8_width(chars[i]) <= LINE_EXCERPT_BYTES - used
        invariant
            n == chars@.len(),
            chars@ == line@,
            i <= n,
            used <= LINE_EXCERPT_BYTES,
            excerpt_chars(line@, LINE_EXCERPT_BYTES as int) == i + excerpt_chars(
                line@.skip(i as int),
                LINE_EXCERPT_BYTES - used,
            ),
        decreases n - i,
    {
        let w = char_utf8_width(chars[i]);
        let ghost rest = line@.skip(i as int);
        assert(rest[0] == chars@[i as int]);
        assert(rest.drop_first() =~= line@.skip(i + 1));
        used = used + w;
        i = i + 1;
    }
    proof {
        let rest = line@.skip(i as int);
        if i < n {
            assert(rest[0] == chars@[i as int]);
        }
        assert(excerpt_chars(rest, LINE_EXCERPT_BYTES - used) == 0);
    }
    let mut m = String::from_str(err_text);
    m.append(": ");
    m.append(line.substring_char(0, i));
    AppError::MetadataParse(m)
}

// ---------------------------------------------------------------------------
// yt-dlp's metadata.
// ---------------------------------------------------------------------------

/// One file that yt-dlp reports to have written.
#[derive(Debug)]
pub struct RequestedDownload {
    pub filepath: Option<String>,
}

/// The metadata object that yt-dlp prints for a video or a playlist.
#[derive(Debug)]
pub struct YtDlpMetadata {
    pub title: Option<String>,
    pub entry_type: Option<String>,
    pub entries: Option<Vec<YtDlpMetadata>>,
    pub ext: Option<String>,
    pub requested_downloads: Vec<RequestedDownload>,
}

/// The file paths of `downloads` that are present, in order.
pub open spec fn download_paths(downloads: Seq<RequestedDownload>) -> Seq<Seq<char>>
    decreases downloads.len(),
{
    if downloads.len() == 0 {
        Seq::empty()
    } else {
        let rest = download_paths(downloads.drop_last());
        match downloads.last().filepath {
            Some(f) => rest.push(f@),
            None => rest,
        }
    }
}

/// The files that a metadata object reports: its own requested downloads,
/// then those of its entries, each entry in turn, depth first.
pub open spec fn metadata_paths(m: YtDlpMetadata) -> Seq<Seq<char>>
    decreases m,
{
    download_paths(m.requested_downloads@) + match m.entries {
        Some(es) => entries_paths(es@),
        None => Seq::empty(),
    }
}

/// The files that a sequence of metadata objects reports, in order.
pub open spec fn entries_paths(es: Seq<YtDlpMetadata>) -> Seq<Seq<char>>
    decreases es,
{
    if es.len() == 0 {
        Seq::empty()
    } else {
        entries_paths(es.drop_last()) + metadata_paths(es.last())
    }
}

/// Appends the files that `m` reports to `out`.
fn push_metadata_paths(m: &YtDlpMetadata, out: &mut Vec<String>)
    ensures
        texts_of(final(out)@) == texts_of(old(out)@) + metadata_paths(*m),
    decreases m,
{
    let ghost start = texts_of(out@);
    let downloads = &m.requested_downloads;
    let mut i: usize = 0;
    while i < downloads.len()
        invariant
            i <= downloads@.len(),
            texts_of(out@) == start + download_paths(downloads@.take(i as int)),
        decreases downloads@.len() - i,
    {
        let ghost before = downloads@.take(i as int);
        let ghost after = downloads@.take(i + 1);
        assert(after.drop_last() =~= before);
        assert(after.last() == downloads@[i as int]);
        let ghost old_out = out@;
        match &downloads[i].filepath {
            Some(f) => {
                out.push(f.clone());
                assert(download_paths(after) == download_paths(before).push(f@));
                assert(texts_of(out@) =~= texts_of(old_out).push(f@));
            },
            None => {
                assert(download_paths(after) == download_paths(before));
            },
        }
        assert(texts_of(out@) =~= start + download_paths(after));
        i = i + 1;
    }
    assert(downloads@.take(downloads@.len() as int) =~= downloads@);
    let ghost own = texts_of(out@);
    match &m.entries {
        Some(es) => {
            let mut j: usize = 0;
            assert(es@.take(0) =~= Seq::<YtDlpMetadata>::empty());
            assert(own =~= own + entries_paths(es@.take(0)));
            while j < es.len()
                invariant
                    j <= es@.len(),
                    m.entries == Some(*es),
                    texts_of(out@) == own + entries_paths(es@.take(j as int)),
                decreases es@.len() - j,
            {
                let ghost before = es@.take(j as int);
                let ghost after = es@.take(j + 1);
                assert(after.drop_last() =~= before);
                assert(after.last() == es@[j as int]);
                proof {
                    assert(decreases_to!(*m => m.entries));
                    assert(decreases_to!(m.entries => m.entries->0));
                    assert(decreases_to!(*es => es@));
                    assert(decreases_to!(es@ => es@[j as int]));
                }
                push_metadata_paths(&es[j], out);
                assert(texts_of(out@) =~= own + entries_paths(after));
                j = j + 1;
            }
            assert(es@.take(es@.len() as int) =~= es@);
            assert(texts_of(out@) =~= start + metadata_paths(*m));
        },
        None => {
            assert(texts_of(out@) =~= start + metadata_paths(*m));
        },
    }
}

/// The files that `m` reports: its own requested downloads, then those of its
/// entries, depth first.
pub fn requested_file_paths(m: &YtDlpMetadata) -> (r: Vec<String>)
    ensures
        texts_of(r@) == metadata_paths(*m),
{
    let mut out: Vec<String> = Vec::new();
    push_metadata_paths(m, &mut out);
    assert(texts_of(out@) =~= metadata_paths(*m));
    out
}

/// The title of a run: the first title among its metadata objects.
pub open spec fn first_title(ms: Seq<YtDlpMetadata>) -> Option<String>
    decreases ms.len(),
{
    if ms.len() == 0 {
        None
    } else {
        match ms[0].title {
            Some(t) => Some(t),
            None => first_title(ms.drop_first()),
        }
    }
}

/// The files that the metadata objects of a run report, in order.
pub open spec fn run_paths(ms: Seq<YtDlpMetadata>) -> Seq<Seq<char>>
    decreases ms.len(),
{
    if ms.len() == 0 {
        Seq::empty()
    } else {
        run_paths(ms.drop_last()) + metadata_paths(ms.last())
    }
}

/// The file path of a requested download, if it has one.
pub open spec fn file_of(d: RequestedDownload) -> Option<Seq<char>> {
    match d.filepath {
        Some(f) => Some(f@),
        None => None,
    }
}

proof fn lemma_download_paths_filter(ds: Seq<RequestedDownload>)
    ensures
        download_paths(ds) == ds.filter_map(|d: RequestedDownload| file_of(d)),
    decreases ds.len(),
{
    if ds.len() > 0 {
        lemma_download_paths_filter(ds.drop_last());
        assert(download_paths(ds) =~= ds.filter_map(|d: RequestedDownload| file_of(d)));
    }
}

proof fn lemma_entries_paths_flatten(es: Seq<YtDlpMetadata>)
    ensures
        entries_paths(es) == es.map_values(|e: YtDlpMetadata| metadata_paths(e)).flatten(),
    decreases es.len(),
{
    let all = es.map_values(|e: YtDlpMetadata| metadata_paths(e));
    if es.len() > 0 {
        lemma_entries_paths_flatten(es.drop_last());
        assert(all.drop_last() =~= es.drop_last().map_values(|e: YtDlpMetadata| metadata_paths(e)));
        all.drop_last().lemma_flatten_and_flatten_alt_are_equivalent();
        all.lemma_flatten_and_flatten_alt_are_equivalent();
        assert(all.flatten_alt() == all.drop_last().flatten_alt() + all.last());
    } else {
        assert(all =~= Seq::<Seq<Seq<char>>>::empty());
    }
}

proof fn lemma_run_paths_flatten(ms: Seq<YtDlpMetadata>)
    ensures
        run_paths(ms) == ms.map_values(|m: YtDlpMetadata| metadata_paths(m)).flatten(),
    decreases ms.len(),
{
    let all = ms.map_values(|m: YtDlpMetadata| metadata_paths(m));
    if ms.len() > 0 {
        lemma_run_paths_flatten(ms.drop_last());
        assert(all.drop_last() =~= ms.drop_last().map_values(|m: YtDlpMetadata| metadata_paths(m)));
        all.drop_last().lemma_flatten_and_flatten_alt_are_equivalent();
        all.lemma_flatten_and_flatten_alt_are_equivalent();
        assert(all.flatten_alt() == all.drop_last().flatten_alt() + all.last());
    } else {
        assert(all =~= Seq::<Seq<Seq<char>>>::empty());
    }
}

/// The files of a metadata object are the paths of its own requested
/// downloads that have one, in order, followed by the files of each of its
/// entries in turn (playlist and carousel entries, depth first).
pub proof fn law_metadata_files(m: YtDlpMetadata)
    ensures
        metadata_paths(m) == m.requested_downloads@.filter_map(|d: RequestedDownload| file_of(d))
            + match m.entries {
            Some(es) => es@.map_values(|e: YtDlpMetadata| metadata_paths(e)).flatten(),
            None => Seq::empty(),
        },
{
    lemma_download_paths_filter(m.requested_downloads@);
    if let Some(es) = m.entries {
        lemma_entries_paths_flatten(es@);
    }
}

/// The files of a run are those of each metadata object in turn, all of
/// them, in order: `(title, files)` of `summarize_metadata` holds every file
/// of every object and of its entries.
pub proof fn law_run_files(ms: Seq<YtDlpMetadata>)
    ensures
        run_paths(ms) == ms.map_values(|m: YtDlpMetadata| metadata_paths(m)).flatten(),
{
    lemma_run_paths_flatten(ms);
}

/// The title of a run is the title of the first metadata object that has
/// one, and there is none only where no object has a title.
pub proof fn law_first_title(ms: Seq<YtDlpMetadata>)
    ensures
        first_title(ms) is None <==> forall|k: int| 0 <= k < ms.len() ==> (#[trigger] ms[k]).title is None,
        first_title(ms) is Some ==> exists|k: int|
            0 <= k < ms.len() && (#[trigger] ms[k]).title == first_title(ms) && forall|j: int|
                0 <= j < k ==> (#[trigger] ms[j]).title is None,
    decreases ms.len(),
{
    if ms.len() > 0 {
        law_first_title(ms.drop_first());
        let rest = ms.drop_first();
        if ms[0].title is None {
            assert forall|k: int| 0 <= k < rest.len() implies rest[k] == ms[k + 1] by {}
            if first_title(ms) is None {
                assert forall|k: int| 0 <= k < ms.len() implies (#[trigger] ms[k]).title is None by {
                    if k > 0 {
                        assert(ms[k] == rest[k - 1]);
                    }
                }
            } else {
                let k = choose|k: int|
                    0 <= k < rest.len() && (#[trigger] rest[k]).title == first_title(rest) && forall|j: int|
                        0 <= j < k ==> (#[trigger] rest[j]).title is None;
                assert(ms[k + 1] == rest[k]);
                assert forall|j: int| 0 <= j < k + 1 implies (#[trigger] ms[j]).title is None by {
                    if j > 0 {
                        assert(ms[j] == rest[j - 1]);
                    }
                }
            }
            if forall|k: int| 0 <= k < ms.len() ==> (#[trigger] ms[k]).title is None {
                assert forall|k: int| 0 <= k < rest.len() implies (#[trigger] rest[k]).title is None by {
                    assert(rest[k] == ms[k + 1]);
                }
            }
        } else {
            assert(ms[0].title == first_title(ms));
        }
    }
}

/// What the metadata of a yt-dlp run says: the title (the first one present)
/// and the files it wrote, in order.
pub fn summarize_metadata(ms: &Vec<YtDlpMetadata>) -> (r: (Option<String>, Vec<String>))
    ensures
        r.0 == first_title(ms@),
        texts_of(r.1@) == run_paths(ms@),
{
    let mut title: Option<String> = None;
    let mut paths: Vec<String> = Vec::new();
    let mut i: usize = 0;
    assert(ms@.skip(0) =~= ms@);
    assert(ms@.take(0) =~= Seq::<YtDlpMetadata>::empty());
    while i < ms.len()
        invariant
            i <= ms@.len(),
            texts_of(paths@) == run_paths(ms@.take(i as int)),
            first_title(ms@) == match title {
                Some(t) => Some(t),
                None => first_title(ms@.skip(i as int)),
            },
        decreases ms@.len() - i,
    {
        let ghost before = ms@.take(i as int);
        let ghost after = ms@.take(i + 1);
        assert(after.drop_last() =~= before);
        assert(after.last() == ms@[i as int]);
        assert(ms@.skip(i as int).drop_first() =~= ms@.skip(i + 1));
        assert(ms@.skip(i as int)[0] == ms@[i as int]);
        if title.is_none() {
            title = match &ms[i].title {
                Some(t) => Some(t.clone()),
                None => None,
            };
        }
        push_metadata_paths(&ms[i], &mut paths);
        assert(texts_of(paths@) =~= run_paths(after));
        i = i + 1;
    }
    assert(ms@.take(ms@.len() as int) =~= ms@);
    proof {
        if title is None {
            assert(ms@.skip(ms@.len() as int).len() == 0);
        }
    }
    (title, paths)
}

} // verus!
