use tg_dl_bot::bot::commands::{command_reply, Command};
use tg_dl_bot::bot::handlers::{
    caption_for_item, caption_from_title, downloading_status, failure_status, plan_message, truncate,
    try_plan_message, uploading_status, wait_message, MessagePlan, State,
};
use tg_dl_bot::config::Config;
use tg_dl_bot::downloader::types::{MediaItem, MediaType};
use tg_dl_bot::platform::matcher::Platform;
use tg_dl_bot::sender::upload::{MediaSender, SendMethod};
use tg_dl_bot::util::cleanup::TempDirGuard;

const SEC: u128 = 1_000_000_000;

fn state(secs: &str) -> State {
    State::new(&Config::from_settings(None, Some(secs.to_string()), None))
}

#[test]
fn rate_limit_refuses_repeat_within_cooldown() {
    let mut s = state("10");
    assert_eq!(s.cooldown_seconds(), 10);
    assert_eq!(s.check_rate_limit(1, 100 * SEC), Ok(()));
    assert_eq!(s.check_rate_limit(1, 100 * SEC), Err(11));
    assert_eq!(s.check_rate_limit(1, 103 * SEC + 1), Err(7));
    assert_eq!(s.check_rate_limit(1, 110 * SEC - 1), Err(1));
    // Other users are not affected.
    assert_eq!(s.check_rate_limit(2, 105 * SEC), Ok(()));
    // Once the cooldown has passed the user is accepted again, and the clock restarts.
    assert_eq!(s.check_rate_limit(1, 110 * SEC), Ok(()));
    assert_eq!(s.check_rate_limit(1, 111 * SEC), Err(10));
}

#[test]
fn refused_requests_do_not_restart_the_cooldown() {
    let mut s = state("5");
    assert_eq!(s.check_rate_limit(7, 0), Ok(()));
    assert_eq!(s.check_rate_limit(7, 4 * SEC), Err(2));
    assert_eq!(s.check_rate_limit(7, 5 * SEC), Ok(()));
}

#[test]
fn zero_cooldown_never_refuses() {
    let mut s = state("0");
    assert_eq!(s.check_rate_limit(1, 0), Ok(()));
    assert_eq!(s.check_rate_limit(1, 0), Ok(()));
}

#[test]
fn message_plans() {
    let mut s = state("10");
    assert!(matches!(plan_message(&mut s, None, Some(1), 0), MessagePlan::Ignore));
    assert!(matches!(plan_message(&mut s, Some("hello"), Some(1), 0), MessagePlan::Ignore));
    assert!(matches!(
        plan_message(&mut s, Some("https://youtu.be/x"), None, 0),
        MessagePlan::Ignore
    ));
    match plan_message(&mut s, Some("a https://youtu.be/x b https://fb.watch/y/"), Some(1), 0) {
        MessagePlan::Download(urls) => {
            assert_eq!(urls.len(), 2);
            assert_eq!(urls[0].platform, Platform::YouTube);
            assert_eq!(urls[1].platform, Platform::Facebook);
        }
        _ => panic!("expected a download"),
    }
    // A message without links does not count against the limit.
    assert!(matches!(plan_message(&mut s, Some("thanks!"), Some(1), SEC), MessagePlan::Ignore));
    match plan_message(&mut s, Some("https://vm.tiktok.com/Z/"), Some(1), 2 * SEC) {
        MessagePlan::Wait(text) => assert_eq!(text, "Please wait 9s before the next download."),
        _ => panic!("expected a wait notice"),
    }
}

#[test]
fn status_texts() {
    assert_eq!(downloading_status(Platform::Instagram), "Downloading from Instagram...");
    assert_eq!(uploading_status(3), "Uploading 3 file(s)...");
    assert_eq!(failure_status("boom"), "Failed: boom");
    assert_eq!(wait_message(12), "Please wait 12s before the next download.");
}

#[test]
fn captions() {
    assert_eq!(truncate("héllo", 2), "hé");
    assert_eq!(truncate("abc", 10), "abc");
    assert_eq!(truncate("", 0), "");
    let long = "ü".repeat(250);
    let c = caption_from_title(&Some(long)).unwrap();
    assert_eq!(c.chars().count(), 200);
    assert!(caption_from_title(&None).is_none());
    let cap = Some("Title".to_string());
    assert_eq!(caption_for_item(0, &cap), cap);
    assert_eq!(caption_for_item(1, &cap), None);
}

#[test]
fn size_aware_sending() {
    let sender = MediaSender::new(&Config::from_settings(None, None, None));
    let item = |t, n| MediaItem { path: "/t/x".to_string(), media_type: t, size_bytes: n };
    assert_eq!(sender.send_method(&item(MediaType::Photo, 10 * 1024 * 1024)), SendMethod::Photo);
    assert_eq!(sender.send_method(&item(MediaType::Photo, 10 * 1024 * 1024 + 1)), SendMethod::Document);
    assert_eq!(sender.send_method(&item(MediaType::Video, 50 * 1024 * 1024)), SendMethod::Video);
    assert_eq!(sender.send_method(&item(MediaType::Video, 50 * 1024 * 1024 + 1)), SendMethod::Document);
}

#[test]
fn command_replies() {
    assert!(command_reply(Command::Start).starts_with("Welcome to the Media Download Bot!\n\nSend me a link"));
    assert!(command_reply(Command::Start).ends_with("Type /help for more info."));
    assert!(command_reply(Command::Help).contains("• Instagram (reels, posts, stories)\n"));
    assert!(command_reply(Command::Help).ends_with("may require cookies for full access."));
}

#[test]
fn temp_dir_guard_keeps_path() {
    let g = TempDirGuard::new("/tmp/abc".to_string());
    assert_eq!(g.path(), "/tmp/abc");
}

#[test]
fn largest_cooldown_fits_once_time_has_passed() {
    let mut s = state("18446744073709551615");
    assert!(s.refusal_fits_now(1, 5 * SEC));
    assert_eq!(s.check_rate_limit(1, 5 * SEC), Ok(()));
    assert!(!s.refusal_fits_now(1, 5 * SEC));
    assert!(s.refusal_fits_now(2, 5 * SEC));
    assert!(s.refusal_fits_now(1, 6 * SEC));
    assert_eq!(s.check_rate_limit(1, 6 * SEC), Err(u64::MAX));
}

#[test]
fn undecidable_messages_are_reported() {
    let mut s = state("18446744073709551615");
    assert!(matches!(
        try_plan_message(&mut s, Some("https://youtu.be/x"), Some(1), SEC),
        Some(MessagePlan::Download(_))
    ));
    // Same instant, largest cooldown: the wait would not fit.
    assert!(try_plan_message(&mut s, Some("https://youtu.be/x"), Some(1), SEC).is_none());
    // Without links nothing is decided on the rate limit.
    assert!(matches!(try_plan_message(&mut s, Some("hi"), Some(1), SEC), Some(MessagePlan::Ignore)));
    assert!(matches!(
        try_plan_message(&mut s, Some("https://youtu.be/x"), Some(1), 2 * SEC),
        Some(MessagePlan::Wait(_))
    ));
}
