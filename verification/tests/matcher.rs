use tg_dl_bot::platform::matcher::{detect_platform, Platform};

#[test]
fn test_youtube_urls() {
    assert_eq!(
        detect_platform("https://www.youtube.com/watch?v=abc123"),
        Some(Platform::YouTube)
    );
    assert_eq!(
        detect_platform("https://youtu.be/abc123"),
        Some(Platform::YouTube)
    );
    assert_eq!(
        detect_platform("https://m.youtube.com/watch?v=abc123"),
        Some(Platform::YouTube)
    );
}

#[test]
fn test_tiktok_urls() {
    assert_eq!(
        detect_platform("https://www.tiktok.com/@user/video/123"),
        Some(Platform::TikTok)
    );
    assert_eq!(
        detect_platform("https://vm.tiktok.com/ZMxx/"),
        Some(Platform::TikTok)
    );
}

#[test]
fn test_instagram_urls() {
    assert_eq!(
        detect_platform("https://www.instagram.com/reel/abc123/"),
        Some(Platform::Instagram)
    );
    assert_eq!(
        detect_platform("https://www.instagram.com/p/abc123/"),
        Some(Platform::Instagram)
    );
}

#[test]
fn test_facebook_urls() {
    assert_eq!(
        detect_platform("https://www.facebook.com/watch/?v=123"),
        Some(Platform::Facebook)
    );
    assert_eq!(
        detect_platform("https://fb.watch/abc123/"),
        Some(Platform::Facebook)
    );
}

#[test]
fn test_unknown_url() {
    assert_eq!(detect_platform("https://example.com/video"), None);
}

#[test]
fn display_names() {
    assert_eq!(Platform::YouTube.display_name(), "YouTube");
    assert_eq!(Platform::TikTok.display_name(), "TikTok");
    assert_eq!(Platform::Instagram.display_name(), "Instagram");
    assert_eq!(Platform::Facebook.display_name(), "Facebook");
}

#[test]
fn detection_ignores_letter_case_and_prefixes() {
    assert_eq!(detect_platform("HTTPS://WWW.YOUTUBE.COM/watch"), Some(Platform::YouTube));
    assert_eq!(detect_platform("youtu.be/x"), Some(Platform::YouTube));
    assert_eq!(detect_platform("see instagr.am/p/1"), Some(Platform::Instagram));
    assert_eq!(detect_platform("http://fb.com/story"), Some(Platform::Facebook));
    assert_eq!(detect_platform("https://m.facebook.com/x"), Some(Platform::Facebook));
    // The KELVIN SIGN folds to `k` and the LONG S to `s`, as in the regex crate.
    assert_eq!(detect_platform("https://tiktok.com/\u{212A}"), Some(Platform::TikTok));
    assert_eq!(detect_platform("https://tikto\u{212A}.com/x"), Some(Platform::TikTok));
    assert_eq!(detect_platform("https://in\u{17F}tagram.com/x"), Some(Platform::Instagram));
}

#[test]
fn detection_needs_slash_after_host() {
    assert_eq!(detect_platform("https://youtube.com"), None);
    assert_eq!(detect_platform("https://youtube.comx/"), None);
    assert_eq!(detect_platform("fb.watch"), None);
    assert_eq!(detect_platform(""), None);
}

#[test]
fn detection_priority_follows_platform_order() {
    // A text matching several patterns goes to the first platform in order.
    assert_eq!(
        detect_platform("https://facebook.com/share?u=https://youtu.be/x"),
        Some(Platform::YouTube)
    );
    assert_eq!(
        detect_platform("https://instagram.com/x?ref=tiktok.com/y"),
        Some(Platform::TikTok)
    );
    // The host may appear anywhere, as the pattern is not anchored.
    assert_eq!(detect_platform("https://notyoutube.com/x"), Some(Platform::YouTube));
}

struct LinkPatterns {
    youtube: regex::Regex,
    tiktok: regex::Regex,
    instagram: regex::Regex,
    facebook: regex::Regex,
}

impl LinkPatterns {
    fn new() -> Self {
        LinkPatterns {
            youtube: regex::Regex::new(
                r"(?i)(?:https?://)?(?:www\.)?(?:youtube\.com|youtu\.be|m\.youtube\.com)/",
            )
            .unwrap(),
            tiktok: regex::Regex::new(r"(?i)(?:https?://)?(?:www\.)?(?:tiktok\.com|vm\.tiktok\.com)/")
                .unwrap(),
            instagram: regex::Regex::new(
                r"(?i)(?:https?://)?(?:www\.)?(?:instagram\.com|instagr\.am)/",
            )
            .unwrap(),
            facebook: regex::Regex::new(
                r"(?i)(?:https?://)?(?:www\.)?(?:facebook\.com|fb\.watch|fb\.com|m\.facebook\.com)/",
            )
            .unwrap(),
        }
    }

    fn detect(&self, url: &str) -> Option<Platform> {
        if self.youtube.is_match(url) {
            Some(Platform::YouTube)
        } else if self.tiktok.is_match(url) {
            Some(Platform::TikTok)
        } else if self.instagram.is_match(url) {
            Some(Platform::Instagram)
        } else if self.facebook.is_match(url) {
            Some(Platform::Facebook)
        } else {
            None
        }
    }
}

#[test]
fn detection_agrees_with_the_link_patterns() {
    let hosts = [
        "youtube.com", "youtu.be", "m.youtube.com", "tiktok.com", "vm.tiktok.com",
        "instagram.com", "instagr.am", "facebook.com", "fb.watch", "fb.com", "m.facebook.com",
        "example.com", "youtube.co", "tiktok.co", "fbwatch",
    ];
    let prefixes = ["", "https://", "http://", "https://www.", "www.", "ftp://", "x", " ", "HTTPS://WWW."];
    let suffixes = ["/", "/watch?v=1", "", "x/", ":80/", "/\u{212A}"];
    let patterns = LinkPatterns::new();
    let mut checked = 0;
    for h in hosts {
        let variants = [
            h.to_string(),
            h.to_uppercase(),
            h.replace('k', "\u{212A}"),
            h.replace('s', "\u{17F}"),
            h.replace('o', "0"),
        ];
        for v in variants.iter() {
            for p in prefixes {
                for s in suffixes {
                    let url = format!("{p}{v}{s}");
                    assert_eq!(detect_platform(&url), patterns.detect(&url), "url: {url}");
                    checked += 1;
                }
            }
        }
    }
    assert!(checked > 1000);
}
