use tg_dl_bot::platform::matcher::Platform;
use tg_dl_bot::util::url::{extract_supported_urls, select_supported_urls};

#[test]
fn test_extract_single_url() {
    let text = "Check this out https://www.youtube.com/watch?v=abc123";
    let urls = extract_supported_urls(text);
    assert_eq!(urls.len(), 1);
    assert_eq!(urls[0].platform, Platform::YouTube);
}

#[test]
fn test_extract_multiple_urls() {
    let text = "YouTube: https://youtu.be/abc and TikTok: https://www.tiktok.com/@user/video/1";
    let urls = extract_supported_urls(text);
    assert_eq!(urls.len(), 2);
}

#[test]
fn test_no_supported_urls() {
    let text = "Check https://example.com for details";
    let urls = extract_supported_urls(text);
    assert!(urls.is_empty());
}

#[test]
fn test_plain_text_no_urls() {
    let text = "Hello, this is a plain message";
    let urls = extract_supported_urls(text);
    assert!(urls.is_empty());
}

#[test]
fn extracted_links_keep_text_and_order() {
    let text = "a https://fb.watch/abc/ b https://example.org/x c https://youtu.be/zz";
    let urls = extract_supported_urls(text);
    assert_eq!(urls.len(), 2);
    assert_eq!(urls[0].url, "https://fb.watch/abc/");
    assert_eq!(urls[0].platform, Platform::Facebook);
    assert_eq!(urls[1].url, "https://youtu.be/zz");
    assert_eq!(urls[1].platform, Platform::YouTube);
    for u in &urls {
        assert!(text.contains(u.url.as_str()));
    }
}

#[test]
fn links_without_scheme_are_not_found() {
    // linkify is used with its default: URLs must have a scheme.
    let urls = extract_supported_urls("look at youtu.be/abc");
    assert!(urls.is_empty());
}

#[test]
fn selection_keeps_supported_links_in_order() {
    let links = vec![
        "https://example.com/".to_string(),
        "https://www.instagram.com/p/1/".to_string(),
        "https://vm.tiktok.com/Z/".to_string(),
    ];
    let selected = select_supported_urls(links);
    assert_eq!(selected.len(), 2);
    assert_eq!(selected[0].url, "https://www.instagram.com/p/1/");
    assert_eq!(selected[0].platform, Platform::Instagram);
    assert_eq!(selected[1].platform, Platform::TikTok);
}
