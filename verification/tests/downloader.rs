use tg_dl_bot::config::Config;
use tg_dl_bot::downloader::gallery_dl_fallback;
use tg_dl_bot::downloader::pipeline::{next_backend, switch_status, Backend, DownloadPipeline};
use tg_dl_bot::downloader::rusty_dl_fallback;
use tg_dl_bot::downloader::rusty_ytdl_fallback;
use tg_dl_bot::downloader::types::{
    media_candidate, media_item_from_size, media_result, media_type_for_path, path_extension,
    MediaItem, MediaResult, MediaType,
};
use tg_dl_bot::downloader::ytdlp::{
    metadata_lines, metadata_parse_error, platform_format, process_failure, requested_file_paths,
    spawn_failure, summarize_metadata, RequestedDownload, YtDlpDownloader, YtDlpMetadata,
};
use tg_dl_bot::error::AppError;
use tg_dl_bot::platform::matcher::Platform;

fn config_with_cookies(cookies: Option<&str>) -> Config {
    Config::from_settings(None, None, cookies.map(|c| c.to_string()))
}

#[test]
fn extensions_match_std_path() {
    let samples = [
        "a.mp4", "dir/video.MP4", "/tmp/x/.hidden", "/tmp/x/.hidden.jpg", "noext", "a.b.c",
        "trailing.", "dir/", "dir/file.webp/", "a/.", "a/..", "..", ".", "", "/", "x.tar.gz",
        "./clip.Json", "a//b.png", "a/./b.jpeg", "..png", ".a.b",
    ];
    for s in samples {
        let expected = std::path::Path::new(s).extension().map(|e| e.to_string_lossy().to_string());
        assert_eq!(path_extension(s), expected, "path {s:?}");
    }
}

#[test]
fn media_types_by_extension() {
    assert_eq!(media_type_for_path("/t/a.jpg"), MediaType::Photo);
    assert_eq!(media_type_for_path("/t/a.JPEG"), MediaType::Photo);
    assert_eq!(media_type_for_path("/t/a.Png"), MediaType::Photo);
    assert_eq!(media_type_for_path("/t/a.webp"), MediaType::Photo);
    assert_eq!(media_type_for_path("/t/a.mp4"), MediaType::Video);
    assert_eq!(media_type_for_path("/t/a.gif"), MediaType::Video);
    assert_eq!(media_type_for_path("/t/jpg"), MediaType::Video);
    assert_eq!(media_type_for_path("/t/.jpg"), MediaType::Video);
}

#[test]
fn photo_extensions_match_to_lowercase() {
    let samples = ["jpg", "JPG", "jPeG", "png", "WEBP", "jpgx", "jp", "\u{212A}", "webP", "pnG "];
    for e in samples {
        let lower = e.to_lowercase();
        let expected = matches!(lower.as_str(), "jpg" | "jpeg" | "png" | "webp");
        let path = format!("/x/file.{e}");
        assert_eq!(media_type_for_path(&path) == MediaType::Photo, expected, "ext {e:?}");
    }
}

#[test]
fn directory_scan_skips_json_and_extensionless() {
    assert!(media_candidate("/t/video.mp4"));
    assert!(!media_candidate("/t/video.info.json"));
    assert!(!media_candidate("/t/video.JSON"));
    assert!(!media_candidate("/t/x.geojson"));
    assert!(!media_candidate("/t/README"));
    assert!(media_candidate("/t/a.js"));
    assert!(media_candidate("/t/a.jsonx"));
}

#[test]
fn items_from_file_sizes() {
    assert!(media_item_from_size("/t/a.mp4".to_string(), None).is_none());
    assert!(media_item_from_size("/t/a.mp4".to_string(), Some(0)).is_none());
    let item = media_item_from_size("/t/a.png".to_string(), Some(42)).unwrap();
    assert_eq!(item.path, "/t/a.png");
    assert_eq!(item.media_type, MediaType::Photo);
    assert_eq!(item.size_bytes, 42);
}

#[test]
fn results_need_items() {
    match media_result(Vec::new(), None, Platform::TikTok, "https://tiktok.com/x") {
        Err(AppError::NoMedia(u)) => assert_eq!(u, "https://tiktok.com/x"),
        other => panic!("unexpected {other:?}"),
    }
    let item = MediaItem { path: "/t/a.mp4".to_string(), media_type: MediaType::Video, size_bytes: 5 };
    let r: MediaResult =
        media_result(vec![item], Some("T".to_string()), Platform::YouTube, "https://youtu.be/x").unwrap();
    assert!(!r.is_empty());
    assert_eq!(r.items.len(), 1);
    assert_eq!(r.title.as_deref(), Some("T"));
    assert_eq!(r.platform, Platform::YouTube);
    assert_eq!(r.source_url, "https://youtu.be/x");
    let empty = MediaResult { items: Vec::new(), title: None, platform: Platform::Facebook, source_url: String::new() };
    assert!(empty.is_empty());
}

#[test]
fn ytdlp_arguments() {
    let d = YtDlpDownloader::new(&config_with_cookies(None));
    let args = d.command_args("https://youtu.be/x", Platform::YouTube, "/tmp/o/%(id)s.%(ext)s");
    assert_eq!(
        args,
        vec![
            "--no-playlist", "--write-info-json", "--print-json", "-o", "/tmp/o/%(id)s.%(ext)s", "-f",
            "bestvideo[height<=1080][ext=mp4]+bestaudio[ext=m4a]/best[ext=mp4]/best",
            "https://youtu.be/x",
        ]
    );
    let d = YtDlpDownloader::new(&config_with_cookies(Some("/c.txt")));
    let args = d.command_args("u", Platform::Instagram, "t");
    assert_eq!(
        args,
        vec!["--no-playlist", "--write-info-json", "--print-json", "-o", "t", "-f", "best", "--cookies", "/c.txt", "u"]
    );
    assert_eq!(platform_format(Platform::TikTok), "best[ext=mp4]/best");
    assert_eq!(platform_format(Platform::Facebook), "best[ext=mp4]/best");
}

#[test]
fn ytdlp_failures() {
    match process_failure(Some(1), "err".to_string()) {
        AppError::YtDlpProcess { code, stderr } => {
            assert_eq!(code, 1);
            assert_eq!(stderr, "err");
        }
        other => panic!("unexpected {other:?}"),
    }
    match process_failure(None, String::new()) {
        AppError::YtDlpProcess { code, .. } => assert_eq!(code, -1),
        other => panic!("unexpected {other:?}"),
    }
    let missing = std::io::Error::new(std::io::ErrorKind::NotFound, "gone");
    assert!(matches!(spawn_failure(true, missing), AppError::YtDlpNotFound));
    let other = std::io::Error::new(std::io::ErrorKind::PermissionDenied, "no");
    assert!(matches!(spawn_failure(false, other), AppError::Io(_)));
}

#[test]
fn metadata_lines_are_trimmed_and_nonempty() {
    let out = "{\"a\":1}\n\n  {\"b\":2}  \r\n\t\n{\"c\":3}";
    assert_eq!(metadata_lines(out), vec!["{\"a\":1}", "{\"b\":2}", "{\"c\":3}"]);
    let expected: Vec<String> =
        out.lines().map(|l| l.trim()).filter(|l| !l.is_empty()).map(|l| l.to_string()).collect();
    assert_eq!(metadata_lines(out), expected);
    assert!(metadata_lines("").is_empty());
    assert!(metadata_lines(" \n \r\n").is_empty());
}

#[test]
fn parse_errors_quote_at_most_200_bytes() {
    let long = "x".repeat(250);
    match metadata_parse_error("expected value", &long) {
        AppError::MetadataParse(m) => assert_eq!(m, format!("expected value: {}", &long[..200])),
        other => panic!("unexpected {other:?}"),
    }
    match metadata_parse_error("eof", "{\"a\"") {
        AppError::MetadataParse(m) => assert_eq!(m, "eof: {\"a\""),
        other => panic!("unexpected {other:?}"),
    }
    let cut_inside = format!("{}é", "x".repeat(199)); // byte 200 lies inside the é
    match metadata_parse_error("e", &cut_inside) {
        AppError::MetadataParse(m) => assert_eq!(m, format!("e: {}", "x".repeat(199))),
        other => panic!("unexpected {other:?}"),
    }
    let emoji = "😀".repeat(60); // four bytes each: 50 fit in 200
    match metadata_parse_error("e", &emoji) {
        AppError::MetadataParse(m) => assert_eq!(m, format!("e: {}", "😀".repeat(50))),
        other => panic!("unexpected {other:?}"),
    }
    let wide = "é".repeat(150); // 300 bytes, a boundary at 200
    match metadata_parse_error("e", &wide) {
        AppError::MetadataParse(m) => assert_eq!(m, format!("e: {}", "é".repeat(100))),
        other => panic!("unexpected {other:?}"),
    }
}

fn meta(title: Option<&str>, files: &[Option<&str>], entries: Option<Vec<YtDlpMetadata>>) -> YtDlpMetadata {
    YtDlpMetadata {
        title: title.map(|t| t.to_string()),
        entry_type: None,
        entries,
        ext: None,
        requested_downloads: files
            .iter()
            .map(|f| RequestedDownload { filepath: f.map(|p| p.to_string()) })
            .collect(),
    }
}

#[test]
fn requested_files_depth_first() {
    let inner = meta(None, &[Some("/t/3.mp4")], Some(vec![meta(None, &[Some("/t/4.jpg")], None)]));
    let m = meta(Some("Playlist"), &[Some("/t/1.mp4"), None, Some("/t/2.mp4")], Some(vec![inner, meta(None, &[], None)]));
    assert_eq!(requested_file_paths(&m), vec!["/t/1.mp4", "/t/2.mp4", "/t/3.mp4", "/t/4.jpg"]);
}

#[test]
fn summary_takes_first_title_and_all_files() {
    let ms = vec![
        meta(None, &[Some("/t/a.mp4")], None),
        meta(Some("Second"), &[], None),
        meta(Some("Third"), &[Some("/t/b.png")], None),
    ];
    let (title, paths) = summarize_metadata(&ms);
    assert_eq!(title.as_deref(), Some("Second"));
    assert_eq!(paths, vec!["/t/a.mp4", "/t/b.png"]);
    let (title, paths) = summarize_metadata(&Vec::new());
    assert!(title.is_none());
    assert!(paths.is_empty());
}

#[test]
fn pipeline_keeps_cookies() {
    let p = DownloadPipeline::new(&config_with_cookies(Some("/c.txt")));
    let args = p.ytdlp().command_args("u", Platform::TikTok, "t");
    assert!(args.windows(2).any(|w| w[0] == "--cookies" && w[1] == "/c.txt"));
}

#[test]
fn fallback_chains() {
    assert_eq!(next_backend(Platform::YouTube, Backend::YtDlp), Some(Backend::RustyYtdl));
    assert_eq!(next_backend(Platform::YouTube, Backend::RustyYtdl), Some(Backend::RustyDl));
    assert_eq!(next_backend(Platform::YouTube, Backend::RustyDl), None);
    for p in [Platform::TikTok, Platform::Instagram, Platform::Facebook] {
        assert_eq!(next_backend(p, Backend::YtDlp), Some(Backend::GalleryDl));
        assert_eq!(next_backend(p, Backend::GalleryDl), None);
    }
    assert_eq!(switch_status(Backend::RustyYtdl), Some("Downloading... (trying alternative 1/2)"));
    assert_eq!(switch_status(Backend::RustyDl), Some("Downloading... (trying alternative 2/2)"));
    assert_eq!(switch_status(Backend::GalleryDl), Some("Downloading... (trying alternative)"));
    assert_eq!(switch_status(Backend::YtDlp), None);
}

#[test]
fn fallback_errors() {
    assert_eq!(
        gallery_dl_fallback::gallery_dl_args("/tmp/o", "https://fb.watch/x/"),
        vec!["-D", "/tmp/o", "--no-mtime", "https://fb.watch/x/"]
    );
    match gallery_dl_fallback::spawn_failure("u", true, "ignored") {
        AppError::Download { url, reason } => {
            assert_eq!(url, "u");
            assert_eq!(reason, "gallery-dl not found — install with: pip install gallery-dl");
        }
        other => panic!("unexpected {other:?}"),
    }
    match gallery_dl_fallback::spawn_failure("u", false, "denied") {
        AppError::Download { reason, .. } => assert_eq!(reason, "gallery-dl: denied"),
        other => panic!("unexpected {other:?}"),
    }
    match gallery_dl_fallback::process_failure("u", "first problem\r\nsecond") {
        AppError::Download { reason, .. } => assert_eq!(reason, "gallery-dl: first problem"),
        other => panic!("unexpected {other:?}"),
    }
    match rusty_ytdl_fallback::download_failure("u", "bad id") {
        AppError::Download { reason, .. } => assert_eq!(reason, "rusty_ytdl: bad id"),
        other => panic!("unexpected {other:?}"),
    }
    match rusty_dl_fallback::download_failure("u", "net") {
        AppError::Download { reason, .. } => assert_eq!(reason, "rusty_dl: net"),
        other => panic!("unexpected {other:?}"),
    }
    assert_eq!(rusty_ytdl_fallback::video_file_name("dQw4w9WgXcQ"), "dQw4w9WgXcQ.mp4");
}
