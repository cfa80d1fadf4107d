use vstd::prelude::*;

use crate::error::AppError;
use crate::platform::matcher::Platform;
use crate::util::text::{split_chars, split_on, str_chars, string_of, views_of, lemma_split_on_nonempty};

verus! {

/// How a downloaded file is sent.
#[derive(Debug, Clone, Copy, PartialEq, Eq, Structural)]
pub enum MediaType {
    Video,
    Photo,
}

/// One downloaded file.
#[derive(Debug, Clone)]
pub struct MediaItem {
    pub path: String,
    pub media_type: MediaType,
    pub size_bytes: u64,
}

/// What one download produced.
#[derive(Debug)]
pub struct MediaResult {
    pub items: Vec<MediaItem>,
    pub title: Option<String>,
    pub platform: Platform,
    pub source_url: String,
}

impl MediaResult {
    /// No file was produced.
    pub fn is_empty(&self) -> (r: bool)
        ensures
            r == (self.items@.len() == 0),
    {
        self.items.len() == 0
    }
}

// ---------------------------------------------------------------------------
// File names and extensions of Unix paths, as `Path::file_name` and
// `Path::extension` give them.
// ---------------------------------------------------------------------------

/// The last of `pieces` that is neither empty nor `.`.
pub open spec fn last_named(pieces: Seq<Seq<char>>) -> Option<Seq<char>>
    decreases pieces.len(),
{
    if pieces.len() == 0 {
        None
    } else if pieces.last().len() == 0 || pieces.last() == seq!['.'] {
        last_named(pieces.drop_last())
    } else {
        Some(pieces.last())
    }
}

/// The final component of path `p`: the last `/`-separated part that is
/// neither empty nor `.`, unless that part is `..`.
pub open spec fn file_name(p: Seq<char>) -> Option<Seq<char>> {
    match last_named(split_on(p, '/')) {
        Some(n) => if n == seq!['.', '.'] {
            None
        } else {
            Some(n)
        },
        None => None,
    }
}

/// The extension of path `p`: the part of its file name after the last `.`,
/// where the file name has a `.` that is not its first character.
pub open spec fn extension(p: Seq<char>) -> Option<Seq<char>> {
    match file_name(p) {
        Some(n) => {
            let parts = split_on(n, '.');
            if parts.len() < 2 || n.len() == parts.last().len() + 1 {
                None
            } else {
                Some(parts.last())
            }
        },
        None => None,
    }
}

fn file_name_chars(p: &Vec<char>) -> (r: Option<Vec<char>>)
    ensures
        match r {
            Some(n) => file_name(p@) == Some(n@),
            None => file_name(p@) is None,
        },
{
    let pieces = split_chars(p.as_slice(), '/');
    let ghost all = views_of(pieces@);
    let mut i: usize = pieces.len();
    assert(all.take(i as int) =~= all);
    while i > 0
        invariant
            i <= pieces@.len(),
            all == views_of(pieces@),
            all == split_on(p@, '/'),
            last_named(all) == last_named(all.take(i as int)),
        decreases i,
    {
        let piece = &pieces[i - 1];
        let ghost prefix = all.take(i as int);
        assert(prefix.last() == piece@);
        assert(prefix.drop_last() =~= all.take(i - 1));
        if piece.len() == 0 || (piece.len() == 1 && piece[0] == '.') {
            assert(piece@.len() == 0 || piece@ =~= seq!['.']);
            i = i - 1;
        } else {
            assert(piece@ != seq!['.']);
            if piece.len() == 2 && piece[0] == '.' && piece[1] == '.' {
                assert(piece@ =~= seq!['.', '.']);
                return None;
            }
            assert(piece@ != seq!['.', '.']);
            let mut name: Vec<char> = Vec::new();
            let mut k: usize = 0;
            while k < piece.len()
                invariant
                    k <= piece@.len(),
                    name@ == piece@.take(k as int),
                decreases piece@.len() - k,
            {
                name.push(piece[k]);
                k = k + 1;
                assert(name@ =~= piece@.take(k as int));
            }
            assert(piece@.take(piece@.len() as int) =~= piece@);
            return Some(name);
        }
    }
    assert(all.take(0) =~= Seq::<Seq<char>>::empty());
    None
}

fn extension_chars(p: &Vec<char>) -> (r: Option<Vec<char>>)
    ensures
        match r {
            Some(e) => extension(p@) == Some(e@),
            None => extension(p@) is None,
        },
{
    match file_name_chars(p) {
        None => None,
        Some(name) => {
            let parts = split_chars(name.as_slice(), '.');
            proof {
                lemma_split_on_nonempty(name@, '.');
            }
            let ghost all = views_of(parts@);
            if parts.len() < 2 {
                return None;
            }
            let last = &parts[parts.len() - 1];
            assert(all.last() == last@);
            if last.len() < name.len() && name.len() - last.len() == 1 {
                return None;
            }
            let mut e: Vec<char> = Vec::new();
            let mut k: usize = 0;
            while k < last.len()
                invariant
                    k <= last@.len(),
                    e@ == last@.take(k as int),
                decreases last@.len() - k,
            {
                e.push(last[k]);
                k = k + 1;
                assert(e@ =~= last@.take(k as int));
            }
            assert(last@.take(last@.len() as int) =~= last@);
            Some(e)
        },
    }
}

/// The extension of the path `path`, as `Path::extension` gives it.
pub fn path_extension(path: &str) -> (r: Option<String>)
    ensures
        match r {
            Some(e) => extension(path@) == Some(e@),
            None => extension(path@) is None,
        },
{
    let p = str_chars(path);
    match extension_chars(&p) {
        Some(e) => Some(string_of(e.as_slice())),
        None => None,
    }
}

// ---------------------------------------------------------------------------
// Comparing with lower-case words, as `to_lowercase` followed by `==` or
// `ends_with` does for words of lower-case ASCII letters.
// ---------------------------------------------------------------------------

/// `c.to_lowercase()` is the lower-case ASCII letter `p`: `c` is `p`, its
/// capital, or, for `k`, the KELVIN SIGN.
pub open spec fn lowercases_to(c: char, p: char) -> bool {
    ||| c == p
    ||| ('a' <= p && p <= 'z' && c as int == p as int - 32)
    ||| (p == 'k' && c == '\u{212A}')
}

/// `s.to_lowercase()` is the word `w` of lower-case ASCII letters.
pub open spec fn lower_is(s: Seq<char>, w: Seq<char>) -> bool {
    &&& s.len() == w.len()
    &&& forall|k: int| 0 <= k < w.len() ==> lowercases_to(#[trigger] s[k], w[k])
}

/// `s.to_lowercase()` ends with the word `w` of lower-case ASCII letters.
pub open spec fn lower_ends_with(s: Seq<char>, w: Seq<char>) -> bool {
    s.len() >= w.len() && lower_is(s.skip(s.len() - w.len()), w)
}

fn char_lowercases_to(c: char, p: char) -> (r: bool)
    ensures
        r == lowercases_to(c, p),
{
    c == p || ('a' <= p && p <= 'z' && (p as u32) - 32 == (c as u32)) || (p == 'k' && c
        == '\u{212A}')
}

fn lower_is_from(s: &Vec<char>, start: usize, w: &str) -> (r: bool)
    requires
        start <= s@.len(),
    ensures
        r == lower_is(s@.skip(start as int), w@),
{
    let word = str_chars(w);
    let n = s.len();
    if n - start != word.len() {
        return false;
    }
    let mut k: usize = 0;
    while k < word.len()
        invariant
            word@ == w@,
            n == s@.len(),
            start + word@.len() == n,
            k <= word@.len(),
            forall|m: int| 0 <= m < k ==> lowercases_to(#[trigger] s@.skip(start as int)[m], w@[m]),
        decreases word@.len() - k,
    {
        let c = s[start + k];
        let p = word[k];
        assert(s@.skip(start as int)[k as int] == c);
        if !char_lowercases_to(c, p) {
            assert(!lowercases_to(s@.skip(start as int)[k as int], w@[k as int]));
            return false;
        }
        k = k + 1;
    }
    true
}

/// The extension names a picture: it is `jpg`, `jpeg`, `png` or `webp` in
/// any letter case.
pub open spec fn is_photo_extension(e: Seq<char>) -> bool {
    lower_is(e, "jpg"@) || lower_is(e, "jpeg"@) || lower_is(e, "png"@) || lower_is(e, "webp"@)
}

/// How a file at `path` is sent: as a photo where its extension names a
/// picture, else as a video.
pub open spec fn media_type_of(path: Seq<char>) -> MediaType {
    match extension(path) {
        Some(e) => if is_photo_extension(e) {
            MediaType::Photo
        } else {
            MediaType::Video
        },
        None => MediaType::Video,
    }
}

/// A file that a directory scan hands on: it has an extension, and that
/// extension does not end in `json` in any letter case (yt-dlp's info files).
pub open spec fn is_media_candidate(path: Seq<char>) -> bool {
    match extension(path) {
        Some(e) => !lower_ends_with(e, "json"@),
        None => false,
    }
}

/// A directory scan hands on exactly the files that have an extension whose
/// last four characters, lower-cased, are not `json` (extensions shorter than
/// four characters always pass); in particular every picture and every file
/// sent as a photo is handed on.
pub proof fn law_scan_hands_on_media(path: Seq<char>)
    ensures
        is_media_candidate(path) <==> (extension(path) matches Some(e) && !(e.len() >= 4 && forall|k: int|
            0 <= k < 4 ==> lowercases_to(#[trigger] e[e.len() - 4 + k], "json"@[k]))),
        (extension(path) matches Some(e) && is_photo_extension(e)) ==> is_media_candidate(path),
        media_type_of(path) == MediaType::Photo ==> is_media_candidate(path),
{
    reveal_strlit("json");
    reveal_strlit("jpg");
    reveal_strlit("jpeg");
    reveal_strlit("png");
    reveal_strlit("webp");
    if let Some(e) = extension(path) {
        let tail = e.skip(e.len() - 4);
        if e.len() >= 4 {
            assert forall|k: int| 0 <= k < 4 implies tail[k] == e[e.len() - 4 + k] by {}
            assert("json"@.len() == 4);
            if lower_is(tail, "json"@) {
                assert forall|k: int| 0 <= k < 4 implies lowercases_to(#[trigger] e[e.len() - 4 + k], "json"@[k]) by {
                    assert(lowercases_to(tail[k], "json"@[k]));
                }
            }
            if forall|k: int| 0 <= k < 4 ==> lowercases_to(#[trigger] e[e.len() - 4 + k], "json"@[k]) {
                assert forall|k: int| 0 <= k < 4 implies lowercases_to(#[trigger] tail[k], "json"@[k]) by {
                    assert(lowercases_to(e[e.len() - 4 + k], "json"@[k]));
                }
                assert(lower_is(tail, "json"@));
            }
        }
        if is_photo_extension(e) && e.len() >= 4 {
            if lower_is(e, "jpeg"@) {
                assert(lowercases_to(e[1], "jpeg"@[1]));
                assert(!lowercases_to(e[1], 's'));
                assert(!lowercases_to(tail[1], "json"@[1]));
            } else if lower_is(e, "webp"@) {
                assert(lowercases_to(e[0], "webp"@[0]));
                assert(!lowercases_to(tail[0], "json"@[0]));
            }
        }
    }
}

/// A file is sent as a photo exactly when its extension is `jpg`, `jpeg`,
/// `png` or `webp` in any letter case; every other file, and a file without
/// an extension, is sent as a video.
pub proof fn law_photos_by_extension(path: Seq<char>)
    ensures
        (media_type_of(path) == MediaType::Photo) <==> (extension(path) matches Some(e) && (lower_is(
            e,
            "jpg"@,
        ) || lower_is(e, "jpeg"@) || lower_is(e, "png"@) || lower_is(e, "webp"@))),
        extension(path) is None ==> media_type_of(path) == MediaType::Video,
{
}

/// How a file at `path` is sent.
pub fn media_type_for_path(path: &str) -> (r: MediaType)
    ensures
        r == media_type_of(path@),
{
    let p = str_chars(path);
    match extension_chars(&p) {
        Some(e) => {
            if lower_is_from(&e, 0, "jpg") || lower_is_from(&e, 0, "jpeg") || lower_is_from(
                &e,
                0,
                "png",
            ) || lower_is_from(&e, 0, "webp") {
                assert(e@.skip(0) =~= e@);
                MediaType::Photo
            } else {
                assert(e@.skip(0) =~= e@);
                MediaType::Video
            }
        },
        None => MediaType::Video,
    }
}

/// Whether a directory scan hands on the file at `path`.
pub fn media_candidate(path: &str) -> (r: bool)
    ensures
        r == is_media_candidate(path@),
{
    let p = str_chars(path);
    match extension_chars(&p) {
        Some(e) => {
            proof {
                reveal_strlit("json");
            }
            if e.len() < 4 {
                true
            } else {
                !lower_is_from(&e, e.len() - 4, "json")
            }
        },
        None => false,
    }
}

/// The item for a file at `path` of `size` bytes (`None` where its size could
/// not be read): none for an unreadable or empty file.
pub fn media_item_from_size(path: String, size: Option<u64>) -> (r: Option<MediaItem>)
    ensures
        match size {
            Some(n) => if n > 0 {
                r matches Some(item) && item.path == path && item.media_type == media_type_of(path@)
                    && item.size_bytes == n
            } else {
                r is None
            },
            None => r is None,
        },
{
    match size {
        Some(n) => {
            if n == 0 {
                None
            } else {
                let media_type = media_type_for_path(path.as_str());
                Some(MediaItem { path, media_type, size_bytes: n })
            }
        },
        None => None,
    }
}

/// The result of a download that produced `items`: the media when there are
/// any, else `NoMedia` for the link.
pub fn media_result(
    items: Vec<MediaItem>,
    title: Option<String>,
    platform: Platform,
    source_url: &str,
) -> (r: Result<MediaResult, AppError>)
    ensures
        items@.len() > 0 ==> (r matches Ok(m) && m.items == items && m.title == title && m.platform
            == platform && m.source_url@ == source_url@),
        items@.len() == 0 ==> (r matches Err(AppError::NoMedia(u)) && u@ == source_url@),
{
    if items.len() == 0 {
        Err(AppError::NoMedia(source_url.to_owned()))
    } else {
        Ok(MediaResult { items, title, platform, source_url: source_url.to_owned() })
    }
}

} // verus!
