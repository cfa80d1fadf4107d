use vstd::prelude::*;

use crate::util::text::str_chars;

verus! {

/// The sites whose links the bot downloads from.
#[derive(Debug, Clone, Copy, PartialEq, Eq, Structural)]
pub enum Platform {
    YouTube,
    TikTok,
    Instagram,
    Facebook,
}

impl Platform {
    /// The name shown to users in status messages.
    pub open spec fn name(self) -> Seq<char> {
        match self {
            Platform::YouTube => "YouTube"@,
            Platform::TikTok => "TikTok"@,
            Platform::Instagram => "Instagram"@,
            Platform::Facebook => "Facebook"@,
        }
    }

    /// Human-readable name for status messages.
    pub fn display_name(self) -> (r: &'static str)
        ensures
            r@ == self.name(),
    {
        match self {
            Platform::YouTube => "YouTube",
            Platform::TikTok => "TikTok",
            Platform::Instagram => "Instagram",
            Platform::Facebook => "Facebook",
        }
    }

    /// The host names of the platform, as its link pattern lists them.
    pub open spec fn hosts(self) -> Seq<Seq<char>> {
        match self {
            Platform::YouTube => seq!["youtube.com"@, "youtu.be"@, "m.youtube.com"@],
            Platform::TikTok => seq!["tiktok.com"@, "vm.tiktok.com"@],
            Platform::Instagram => seq!["instagram.com"@, "instagr.am"@],
            Platform::Facebook => seq![
                "facebook.com"@,
                "fb.watch"@,
                "fb.com"@,
                "m.facebook.com"@,
            ],
        }
    }
}

// ---------------------------------------------------------------------------
// The link patterns.
//
// Each platform is recognised by the case-insensitive pattern
//     (?:https?://)?(?:www\.)?(?:HOST|HOST|...)/
// searched anywhere in the text.
// ---------------------------------------------------------------------------

/// `c` matches the pattern character `p` (a lower-case ASCII letter or a
/// punctuation character) under simple Unicode case folding: the letter itself,
/// its capital, and, for `k` and `s`, the KELVIN SIGN and the LONG S.
pub open spec fn folds_to(c: char, p: char) -> bool {
    ||| c == p
    ||| ('a' <= p && p <= 'z' && c as int == p as int - 32)
    ||| (p == 'k' && c == '\u{212A}')
    ||| (p == 's' && c == '\u{17F}')
}

/// The characters of `s` from position `i` on match the word `w`, case-insensitively.
pub open spec fn matches_at(s: Seq<char>, i: int, w: Seq<char>) -> bool {
    &&& 0 <= i
    &&& i + w.len() <= s.len()
    &&& forall|k: int| 0 <= k < w.len() ==> folds_to(#[trigger] s[i + k], w[k])
}

/// `w` occurs somewhere in `s`, case-insensitively.
pub open spec fn contains_folded(s: Seq<char>, w: Seq<char>) -> bool {
    exists|i: int| matches_at(s, i, w)
}

/// The pattern for host `h` matches at position `i`: an optional `http://` or
/// `https://`, an optional `www.`, the host, and a `/`.
pub open spec fn host_pattern_at(s: Seq<char>, i: int, h: Seq<char>) -> bool {
    let tail = h + "/"@;
    ||| matches_at(s, i, tail)
    ||| matches_at(s, i, "www."@ + tail)
    ||| matches_at(s, i, "http://"@ + tail)
    ||| matches_at(s, i, "http://www."@ + tail)
    ||| matches_at(s, i, "https://"@ + tail)
    ||| matches_at(s, i, "https://www."@ + tail)
}

/// The link pattern of platform `p` matches somewhere in `s`.
pub open spec fn platform_pattern_matches(s: Seq<char>, p: Platform) -> bool {
    exists|i: int, j: int| 0 <= j < p.hosts().len() && host_pattern_at(s, i, p.hosts()[j])
}

/// The platform of a link: the first one, in the order YouTube, TikTok,
/// Instagram, Facebook, whose pattern matches it.
pub open spec fn platform_of(s: Seq<char>) -> Option<Platform> {
    if platform_pattern_matches(s, Platform::YouTube) {
        Some(Platform::YouTube)
    } else if platform_pattern_matches(s, Platform::TikTok) {
        Some(Platform::TikTok)
    } else if platform_pattern_matches(s, Platform::Instagram) {
        Some(Platform::Instagram)
    } else if platform_pattern_matches(s, Platform::Facebook) {
        Some(Platform::Facebook)
    } else {
        None
    }
}

/// Some host of `p`, followed by `/`, occurs in `s`, case-insensitively.
pub open spec fn has_host_link(s: Seq<char>, p: Platform) -> bool {
    exists|j: int| 0 <= j < p.hosts().len() && contains_folded(s, #[trigger] p.hosts()[j] + "/"@)
}

proof fn lemma_matches_suffix(s: Seq<char>, i: int, u: Seq<char>, v: Seq<char>)
    requires
        matches_at(s, i, u + v),
    ensures
        matches_at(s, i + u.len(), v),
{
    assert forall|k: int| 0 <= k < v.len() implies folds_to(#[trigger] s[i + u.len() + k], v[k]) by {
        assert((u + v)[u.len() + k] == v[k]);
        assert(s[i + (u.len() + k)] == s[i + u.len() + k]);
    }
}

/// The optional scheme and `www.` of the patterns do not change where they
/// match: a platform's pattern matches a text exactly when one of its hosts,
/// followed by `/`, occurs in it, in any letter case.
pub proof fn law_pattern_is_host_search(s: Seq<char>, p: Platform)
    ensures
        platform_pattern_matches(s, p) <==> has_host_link(s, p),
{
    if platform_pattern_matches(s, p) {
        let (i, j) = choose|i: int, j: int|
            0 <= j < p.hosts().len() && host_pattern_at(s, i, p.hosts()[j]);
        let tail = p.hosts()[j] + "/"@;
        if matches_at(s, i, tail) {
        } else if matches_at(s, i, "www."@ + tail) {
            lemma_matches_suffix(s, i, "www."@, tail);
        } else if matches_at(s, i, "http://"@ + tail) {
            lemma_matches_suffix(s, i, "http://"@, tail);
        } else if matches_at(s, i, "http://www."@ + tail) {
            lemma_matches_suffix(s, i, "http://www."@, tail);
        } else if matches_at(s, i, "https://"@ + tail) {
            lemma_matches_suffix(s, i, "https://"@, tail);
        } else {
            lemma_matches_suffix(s, i, "https://www."@, tail);
        }
        assert(contains_folded(s, p.hosts()[j] + "/"@));
    }
    if has_host_link(s, p) {
        let j = choose|j: int| 0 <= j < p.hosts().len() && contains_folded(s, #[trigger] p.hosts()[j] + "/"@);
        let i = choose|i: int| matches_at(s, i, p.hosts()[j] + "/"@);
        assert(host_pattern_at(s, i, p.hosts()[j]));
    }
}

/// The platform of a link, by the host names of the link patterns: YouTube
/// for `youtube.com/`, `youtu.be/` or `m.youtube.com/`; else TikTok for
/// `tiktok.com/` or `vm.tiktok.com/`; else Instagram for `instagram.com/` or
/// `instagr.am/`; else Facebook for `facebook.com/`, `fb.watch/`, `fb.com/`
/// or `m.facebook.com/` (each anywhere in the link, in any letter case);
/// else none.
pub proof fn law_platform_by_host_names(s: Seq<char>)
    ensures
        platform_of(s) == if contains_folded(s, "youtube.com/"@) || contains_folded(s, "youtu.be/"@)
            || contains_folded(s, "m.youtube.com/"@) {
            Some(Platform::YouTube)
        } else if contains_folded(s, "tiktok.com/"@) || contains_folded(s, "vm.tiktok.com/"@) {
            Some(Platform::TikTok)
        } else if contains_folded(s, "instagram.com/"@) || contains_folded(s, "instagr.am/"@) {
            Some(Platform::Instagram)
        } else if contains_folded(s, "facebook.com/"@) || contains_folded(s, "fb.watch/"@)
            || contains_folded(s, "fb.com/"@) || contains_folded(s, "m.facebook.com/"@) {
            Some(Platform::Facebook)
        } else {
            None
        },
{
    reveal_strlit("/");
    reveal_strlit("youtube.com");
    reveal_strlit("youtube.com/");
    reveal_strlit("youtu.be");
    reveal_strlit("youtu.be/");
    reveal_strlit("m.youtube.com");
    reveal_strlit("m.youtube.com/");
    reveal_strlit("tiktok.com");
    reveal_strlit("tiktok.com/");
    reveal_strlit("vm.tiktok.com");
    reveal_strlit("vm.tiktok.com/");
    reveal_strlit("instagram.com");
    reveal_strlit("instagram.com/");
    reveal_strlit("instagr.am");
    reveal_strlit("instagr.am/");
    reveal_strlit("facebook.com");
    reveal_strlit("facebook.com/");
    reveal_strlit("fb.watch");
    reveal_strlit("fb.watch/");
    reveal_strlit("fb.com");
    reveal_strlit("fb.com/");
    reveal_strlit("m.facebook.com");
    reveal_strlit("m.facebook.com/");
    law_pattern_is_host_search(s, Platform::YouTube);
    law_pattern_is_host_search(s, Platform::TikTok);
    law_pattern_is_host_search(s, Platform::Instagram);
    law_pattern_is_host_search(s, Platform::Facebook);
    let y = Platform::YouTube.hosts();
    let t = Platform::TikTok.hosts();
    let i = Platform::Instagram.hosts();
    let f = Platform::Facebook.hosts();
    assert(y[0] + "/"@ =~= "youtube.com/"@);
    assert(y[1] + "/"@ =~= "youtu.be/"@);
    assert(y[2] + "/"@ =~= "m.youtube.com/"@);
    assert(t[0] + "/"@ =~= "tiktok.com/"@);
    assert(t[1] + "/"@ =~= "vm.tiktok.com/"@);
    assert(i[0] + "/"@ =~= "instagram.com/"@);
    assert(i[1] + "/"@ =~= "instagr.am/"@);
    assert(f[0] + "/"@ =~= "facebook.com/"@);
    assert(f[1] + "/"@ =~= "fb.watch/"@);
    assert(f[2] + "/"@ =~= "fb.com/"@);
    assert(f[3] + "/"@ =~= "m.facebook.com/"@);
    assert(has_host_link(s, Platform::YouTube) == (contains_folded(s, y[0] + "/"@) || contains_folded(s, y[1] + "/"@) || contains_folded(s, y[2] + "/"@)));
    assert(has_host_link(s, Platform::TikTok) == (contains_folded(s, t[0] + "/"@) || contains_folded(s, t[1] + "/"@)));
    assert(has_host_link(s, Platform::Instagram) == (contains_folded(s, i[0] + "/"@) || contains_folded(s, i[1] + "/"@)));
    assert(has_host_link(s, Platform::Facebook) == (contains_folded(s, f[0] + "/"@) || contains_folded(s, f[1] + "/"@) || contains_folded(s, f[2] + "/"@) || contains_folded(s, f[3] + "/"@)));
}

/// `c` with an ASCII capital turned into its small letter.
pub open spec fn ascii_lower(c: char) -> char {
    if 'A' <= c && c <= 'Z' {
        ((c as u32) + 32) as char
    } else {
        c
    }
}

/// `s` with its ASCII capitals turned into small letters.
pub open spec fn ascii_lowercase(s: Seq<char>) -> Seq<char> {
    Seq::new(s.len(), |k: int| ascii_lower(s[k]))
}

/// No character of `w` is an ASCII capital.
pub open spec fn no_capitals(w: Seq<char>) -> bool {
    forall|k: int| 0 <= k < w.len() ==> !('A' <= #[trigger] w[k] && w[k] <= 'Z')
}

proof fn lemma_contains_lowercase(s: Seq<char>, w: Seq<char>)
    requires
        no_capitals(w),
    ensures
        contains_folded(s, w) == contains_folded(ascii_lowercase(s), w),
{
    let l = ascii_lowercase(s);
    assert forall|i: int| #[trigger] matches_at(s, i, w) == matches_at(l, i, w) by {
        if 0 <= i && i + w.len() <= s.len() {
            assert forall|k: int| 0 <= k < w.len() implies folds_to(#[trigger] s[i + k], w[k])
                == folds_to(l[i + k], w[k]) by {
                assert(!('A' <= w[k] && w[k] <= 'Z'));
            }
        }
    }
    if contains_folded(s, w) {
        let i = choose|i: int| matches_at(s, i, w);
        assert(matches_at(l, i, w));
    }
    if contains_folded(l, w) {
        let i = choose|i: int| matches_at(l, i, w);
        assert(matches_at(s, i, w));
    }
}

proof fn lemma_host_links_lowercase(p: Platform)
    ensures
        forall|j: int| 0 <= j < p.hosts().len() ==> no_capitals(#[trigger] p.hosts()[j] + "/"@),
{
    reveal_strlit("/");
    reveal_strlit("youtube.com");
    reveal_strlit("youtu.be");
    reveal_strlit("m.youtube.com");
    reveal_strlit("tiktok.com");
    reveal_strlit("vm.tiktok.com");
    reveal_strlit("instagram.com");
    reveal_strlit("instagr.am");
    reveal_strlit("facebook.com");
    reveal_strlit("fb.watch");
    reveal_strlit("fb.com");
    reveal_strlit("m.facebook.com");
    assert forall|j: int| 0 <= j < p.hosts().len() implies no_capitals(#[trigger] p.hosts()[j] + "/"@) by {
        let w = p.hosts()[j] + "/"@;
        assert forall|k: int| 0 <= k < w.len() implies !('A' <= #[trigger] w[k] && w[k] <= 'Z') by {
            if k < p.hosts()[j].len() {
                assert(w[k] == p.hosts()[j][k]);
            } else {
                assert(w[k] == '/');
            }
        }
    }
}

proof fn lemma_pattern_lowercase(s: Seq<char>, p: Platform)
    ensures
        platform_pattern_matches(s, p) == platform_pattern_matches(ascii_lowercase(s), p),
{
    let l = ascii_lowercase(s);
    lemma_host_links_lowercase(p);
    assert forall|j: int| 0 <= j < p.hosts().len() implies contains_folded(s, #[trigger] p.hosts()[j]
        + "/"@) == contains_folded(l, p.hosts()[j] + "/"@) by {
        lemma_contains_lowercase(s, p.hosts()[j] + "/"@);
    }
    law_pattern_is_host_search(s, p);
    law_pattern_is_host_search(l, p);
}

/// The patterns are case-insensitive: turning the ASCII capitals of a link
/// into small letters never changes its platform.
pub proof fn law_detection_ignores_ascii_case(s: Seq<char>)
    ensures
        platform_of(s) == platform_of(ascii_lowercase(s)),
{
    lemma_pattern_lowercase(s, Platform::YouTube);
    lemma_pattern_lowercase(s, Platform::TikTok);
    lemma_pattern_lowercase(s, Platform::Instagram);
    lemma_pattern_lowercase(s, Platform::Facebook);
}

// ---------------------------------------------------------------------------
// Searching.
// ---------------------------------------------------------------------------

fn char_folds_to(c: char, p: char) -> (r: bool)
    ensures
        r == folds_to(c, p),
{
    c == p || ('a' <= p && p <= 'z' && (c as u32) + 32 == (p as u32)) || (p == 'k' && c
        == '\u{212A}') || (p == 's' && c == '\u{17F}')
}

fn matches_at_exec(s: &Vec<char>, i: usize, w: &Vec<char>) -> (r: bool)
    requires
        i + w@.len() <= s@.len(),
    ensures
        r == matches_at(s@, i as int, w@),
{
    let n = s.len();
    let mut k: usize = 0;
    while k < w.len()
        invariant
            n == s@.len(),
            i + w@.len() <= n,
            k <= w@.len(),
            forall|m: int| 0 <= m < k ==> folds_to(#[trigger] s@[i + m], w@[m]),
        decreases w@.len() - k,
    {
        if !char_folds_to(s[i + k], w[k]) {
            return false;
        }
        k = k + 1;
    }
    true
}

fn contains_folded_exec(s: &Vec<char>, w: &Vec<char>) -> (r: bool)
    ensures
        r == contains_folded(s@, w@),
{
    if w.len() == 0 {
        assert(matches_at(s@, 0, w@));
        return true;
    }
    if w.len() > s.len() {
        assert forall|m: int| !matches_at(s@, m, w@) by {}
        return false;
    }
    let end = s.len() - w.len() + 1;
    let mut i: usize = 0;
    while i < end
        invariant
            end == s@.len() - w@.len() + 1,
            1 <= w@.len() <= s@.len(),
            i <= end,
            forall|m: int| 0 <= m < i ==> !matches_at(s@, m, w@),
        decreases end - i,
    {
        if matches_at_exec(s, i, w) {
            return true;
        }
        i = i + 1;
    }
    assert forall|m: int| !matches_at(s@, m, w@) by {
        if 0 <= m && m + w@.len() <= s@.len() {
            assert(m < end);
        }
    }
    false
}

/// The search words of a platform: each host followed by `/`.
fn host_links(p: Platform) -> (r: Vec<Vec<char>>)
    ensures
        r@.len() == p.hosts().len(),
        forall|j: int| 0 <= j < r@.len() ==> (#[trigger] r@[j])@ == p.hosts()[j] + "/"@,
{
    proof {
        reveal_strlit("/");
        reveal_strlit("youtube.com");
        reveal_strlit("youtube.com/");
        reveal_strlit("youtu.be");
        reveal_strlit("youtu.be/");
        reveal_strlit("m.youtube.com");
        reveal_strlit("m.youtube.com/");
        reveal_strlit("tiktok.com");
        reveal_strlit("tiktok.com/");
        reveal_strlit("vm.tiktok.com");
        reveal_strlit("vm.tiktok.com/");
        reveal_strlit("instagram.com");
        reveal_strlit("instagram.com/");
        reveal_strlit("instagr.am");
        reveal_strlit("instagr.am/");
        reveal_strlit("facebook.com");
        reveal_strlit("facebook.com/");
        reveal_strlit("fb.watch");
        reveal_strlit("fb.watch/");
        reveal_strlit("fb.com");
        reveal_strlit("fb.com/");
        reveal_strlit("m.facebook.com");
        reveal_strlit("m.facebook.com/");
    }
    let mut r: Vec<Vec<char>> = Vec::new();
    match p {
        Platform::YouTube => {
            r.push(str_chars("youtube.com/"));
            r.push(str_chars("youtu.be/"));
            r.push(str_chars("m.youtube.com/"));
            assert(r@[0]@ =~= p.hosts()[0] + "/"@);
            assert(r@[1]@ =~= p.hosts()[1] + "/"@);
            assert(r@[2]@ =~= p.hosts()[2] + "/"@);
        },
        Platform::TikTok => {
            r.push(str_chars("tiktok.com/"));
            r.push(str_chars("vm.tiktok.com/"));
            assert(r@[0]@ =~= p.hosts()[0] + "/"@);
            assert(r@[1]@ =~= p.hosts()[1] + "/"@);
        },
        Platform::Instagram => {
            r.push(str_chars("instagram.com/"));
            r.push(str_chars("instagr.am/"));
            assert(r@[0]@ =~= p.hosts()[0] + "/"@);
            assert(r@[1]@ =~= p.hosts()[1] + "/"@);
        },
        Platform::Facebook => {
            r.push(str_chars("facebook.com/"));
            r.push(str_chars("fb.watch/"));
            r.push(str_chars("fb.com/"));
            r.push(str_chars("m.facebook.com/"));
            assert(r@[0]@ =~= p.hosts()[0] + "/"@);
            assert(r@[1]@ =~= p.hosts()[1] + "/"@);
            assert(r@[2]@ =~= p.hosts()[2] + "/"@);
            assert(r@[3]@ =~= p.hosts()[3] + "/"@);
        },
    }
    r
}

fn pattern_matches(s: &Vec<char>, p: Platform) -> (r: bool)
    ensures
        r == platform_pattern_matches(s@, p),
{
    let links = host_links(p);
    let mut j: usize = 0;
    while j < links.len()
        invariant
            links@.len() == p.hosts().len(),
            forall|m: int| 0 <= m < links@.len() ==> (#[trigger] links@[m])@ == p.hosts()[m] + "/"@,
            j <= links@.len(),
            forall|m: int| 0 <= m < j ==> !contains_folded(s@, #[trigger] p.hosts()[m] + "/"@),
        decreases links@.len() - j,
    {
        if contains_folded_exec(s, &links[j]) {
            proof {
                assert(contains_folded(s@, p.hosts()[j as int] + "/"@));
                assert(has_host_link(s@, p));
                law_pattern_is_host_search(s@, p);
            }
            return true;
        }
        j = j + 1;
    }
    proof {
        law_pattern_is_host_search(s@, p);
    }
    false
}

/// The platform whose link pattern `url` matches, trying YouTube, TikTok,
/// Instagram and Facebook in that order; `None` when no pattern matches.
pub fn detect_platform(url: &str) -> (r: Option<Platform>)
    ensures
        r == platform_of(url@),
{
    let s = str_chars(url);
    if pattern_matches(&s, Platform::YouTube) {
        Some(Platform::YouTube)
    } else if pattern_matches(&s, Platform::TikTok) {
        Some(Platform::TikTok)
    } else if pattern_matches(&s, Platform::Instagram) {
        Some(Platform::Instagram)
    } else if pattern_matches(&s, Platform::Facebook) {
        Some(Platform::Facebook)
    } else {
        None
    }
}

} // verus!
