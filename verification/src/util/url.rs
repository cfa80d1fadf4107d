use linkify::{LinkFinder, LinkKind};
use vstd::prelude::*;

use crate::platform::matcher::{detect_platform, platform_of, Platform};

verus! {

/// A link of a supported platform found in a message.
pub struct ExtractedUrl {
    pub url: String,
    pub platform: Platform,
}

impl View for ExtractedUrl {
    type V = (Seq<char>, Platform);

    open spec fn view(&self) -> (Seq<char>, Platform) {
        (self.url@, self.platform)
    }
}

/// `part` occurs in `whole` as a contiguous run of characters.
pub open spec fn occurs_in(part: Seq<char>, whole: Seq<char>) -> bool {
    exists|i: int| 0 <= i && i + part.len() <= whole.len() && #[trigger] whole.subrange(i, i + part.len()) == part
}

/// The texts of the URL links that linkify's `LinkFinder`, restricted to
/// `LinkKind::Url`, finds in `text`, in the order it reports them.
pub uninterp spec fn linkify_url_links(text: Seq<char>) -> Seq<Seq<char>>;

/// linkify's `LinkFinder::links` with the kinds set to `[LinkKind::Url]`,
/// each link taken by `Link::as_str`. Claimed: the texts are those named by
/// `linkify_url_links`, and each is a slice of `text` (`as_str` returns
/// `&text[start..end]`).
#[verifier::external_body]
fn find_url_links(text: &str) -> (links: Vec<String>)
    ensures
        links@.map_values(|l: String| l@) == linkify_url_links(text@),
        forall|k: int| 0 <= k < links@.len() ==> occurs_in(#[trigger] links@[k]@, text@),
{
    let mut finder = LinkFinder::new();
    finder.kinds(&[LinkKind::Url]);
    let mut links = Vec::new();
    for link in finder.links(text) {
        links.push(link.as_str().to_string());
    }
    links
}

/// The links among `links` that belong to a supported platform, each with its
/// platform, in their order.
pub open spec fn supported_links(links: Seq<Seq<char>>) -> Seq<(Seq<char>, Platform)>
    decreases links.len(),
{
    if links.len() == 0 {
        Seq::empty()
    } else {
        let rest = supported_links(links.drop_last());
        match platform_of(links.last()) {
            Some(p) => rest.push((links.last(), p)),
            None => rest,
        }
    }
}

/// The views of a sequence of extracted links.
pub open spec fn extracted_views(v: Seq<ExtractedUrl>) -> Seq<(Seq<char>, Platform)> {
    v.map_values(|e: ExtractedUrl| e@)
}

/// A link paired with its platform, where it has one.
pub open spec fn with_platform(l: Seq<char>) -> Option<(Seq<char>, Platform)> {
    match platform_of(l) {
        Some(p) => Some((l, p)),
        None => None,
    }
}

/// The supported links of a list are every link of the list that has a
/// platform, each with that platform, in the order of the list, and nothing
/// else: none is dropped, repeated, reordered or added.
pub proof fn law_supported_links_keep_every_link(links: Seq<Seq<char>>)
    ensures
        supported_links(links) == links.filter_map(|l: Seq<char>| with_platform(l)),
        supported_links(links).len() <= links.len(),
        forall|k: int|
            0 <= k < links.len() && platform_of(#[trigger] links[k]) is Some ==> supported_links(
                links,
            ).contains((links[k], platform_of(links[k])->0)),
    decreases links.len(),
{
    let f = |l: Seq<char>| with_platform(l);
    if links.len() > 0 {
        law_supported_links_keep_every_link(links.drop_last());
        let rest = supported_links(links.drop_last());
        assert forall|k: int|
            0 <= k < links.len() && platform_of(#[trigger] links[k]) is Some implies supported_links(
                links,
            ).contains((links[k], platform_of(links[k])->0)) by {
            let full = supported_links(links);
            if k < links.len() - 1 {
                assert(links.drop_last()[k] == links[k]);
                let j = choose|j: int| 0 <= j < rest.len() && rest[j] == (links[k], platform_of(links[k])->0);
                assert(full[j] == rest[j]);
            } else {
                assert(links[k] == links.last());
                assert(full[full.len() - 1] == (links[k], platform_of(links[k])->0));
            }
        }
        match platform_of(links.last()) {
            Some(p) => {
                assert(supported_links(links) =~= links.filter_map(f));
            },
            None => {
                assert(supported_links(links) =~= links.filter_map(f));
            },
        }
    } else {
        assert(supported_links(links) =~= links.filter_map(f));
    }
}

proof fn lemma_supported_links_members(links: Seq<Seq<char>>, k: int)
    requires
        0 <= k < supported_links(links).len(),
    ensures
        platform_of(supported_links(links)[k].0) == Some(supported_links(links)[k].1),
        links.contains(supported_links(links)[k].0),
    decreases links.len(),
{
    let rest = supported_links(links.drop_last());
    if k < rest.len() {
        lemma_supported_links_members(links.drop_last(), k);
        let j = choose|j: int| 0 <= j < links.drop_last().len() && links.drop_last()[j] == rest[k].0;
        assert(links[j] == rest[k].0);
    } else {
        assert(links[links.len() - 1] == links.last());
    }
}

/// Keeps the links of `links` that belong to a supported platform, in order,
/// each with its platform.
pub fn select_supported_urls(links: Vec<String>) -> (r: Vec<ExtractedUrl>)
    ensures
        extracted_views(r@) == supported_links(links@.map_values(|l: String| l@)),
{
    let ghost texts = links@.map_values(|l: String| l@);
    let mut out: Vec<ExtractedUrl> = Vec::new();
    let mut i: usize = 0;
    while i < links.len()
        invariant
            texts == links@.map_values(|l: String| l@),
            i <= links@.len(),
            extracted_views(out@) == supported_links(texts.take(i as int)),
        decreases links@.len() - i,
    {
        let url = links[i].clone();
        let ghost before = texts.take(i as int);
        let ghost after = texts.take(i + 1);
        assert(after.drop_last() =~= before);
        assert(after.last() == url@);
        match detect_platform(url.as_str()) {
            Some(platform) => {
                out.push(ExtractedUrl { url, platform });
                assert(extracted_views(out@) =~= supported_links(after));
            },
            None => {
                assert(extracted_views(out@) =~= supported_links(after));
            },
        }
        i = i + 1;
    }
    assert(texts.take(links@.len() as int) =~= texts);
    out
}

/// The links of supported platforms in a message: the URLs that linkify finds
/// in `text`, in order, kept where `detect_platform` gives a platform, each
/// with that platform.
pub fn extract_supported_urls(text: &str) -> (r: Vec<ExtractedUrl>)
    ensures
        extracted_views(r@) == supported_links(linkify_url_links(text@)),
        forall|k: int|
            0 <= k < r@.len() ==> occurs_in((#[trigger] r@[k]).url@, text@) && platform_of(
                r@[k].url@,
            ) == Some(r@[k].platform),
{
    let links = find_url_links(text);
    let ghost texts = links@.map_values(|l: String| l@);
    let r = select_supported_urls(links);
    proof {
        assert forall|k: int| 0 <= k < r@.len() implies occurs_in((#[trigger] r@[k]).url@, text@)
            && platform_of(r@[k].url@) == Some(r@[k].platform) by {
            assert(extracted_views(r@)[k] == r@[k]@);
            lemma_supported_links_members(texts, k);
            let j = choose|j: int| 0 <= j < texts.len() && texts[j] == r@[k].url@;
            assert(texts[j] == links@[j]@);
        }
    }
    r
}

} // verus!
