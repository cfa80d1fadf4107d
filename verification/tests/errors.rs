use tg_dl_bot::error::AppError;

#[test]
fn messages_of_each_variant() {
    let e = AppError::Download { url: "u".to_string(), reason: "r".to_string() };
    assert_eq!(e.message(), "download failed for u: r");
    let e = AppError::YtDlpProcess { code: -1, stderr: "boom".to_string() };
    assert_eq!(e.message(), "yt-dlp exited with code -1: boom");
    let e = AppError::YtDlpProcess { code: 2, stderr: String::new() };
    assert_eq!(e.message(), "yt-dlp exited with code 2: ");
    let e = AppError::YtDlpProcess { code: i32::MIN, stderr: "x".to_string() };
    assert_eq!(e.message(), format!("yt-dlp exited with code {}: x", i32::MIN));
    assert_eq!(AppError::YtDlpNotFound.message(), "yt-dlp not found — is it installed and on PATH?");
    assert_eq!(
        AppError::MetadataParse("bad".to_string()).message(),
        "failed to parse yt-dlp metadata: bad"
    );
    assert_eq!(
        AppError::UnsupportedPlatform("x".to_string()).message(),
        "unsupported platform for URL: x"
    );
    assert_eq!(AppError::Telegram("t".to_string()).message(), "telegram API error: t");
    assert_eq!(
        AppError::RateLimited { seconds: 9 }.message(),
        "rate limited — please wait 9 seconds"
    );
    assert_eq!(AppError::NoMedia("u".to_string()).message(), "no downloadable media found at u");
}

#[test]
fn wrapped_errors_show_their_own_text() {
    let io = std::io::Error::new(std::io::ErrorKind::Other, "disk on fire");
    assert_eq!(AppError::Io(io).message(), "disk on fire");
    let json = serde_json::from_str::<serde_json::Value>("{").unwrap_err();
    let text = json.to_string();
    assert_eq!(AppError::Json(json).message(), text);
}
