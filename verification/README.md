# tg-dl-bot

A Telegram bot that downloads videos and photos from YouTube, TikTok,
Instagram and Facebook links and sends them back to the chat.

The decisions of the bot form a library in `src/`, each function with a
contract that Verus proves:

- `platform::matcher` — which platform a link belongs to (the case-insensitive
  host patterns), with laws on how the patterns match.
- `util::url` — the supported links of a message (links found by linkify).
- `config` — settings parsed from their texts, with defaults.
- `downloader` — yt-dlp and gallery-dl arguments, yt-dlp's metadata output,
  classification of downloaded files, errors, and the order in which the
  downloaders are tried.
- `sender::upload` — whether a file goes as photo, video or document.
- `bot` — the per-user rate limit, what to do with a message, and the texts
  shown to users.

`app/` is the program around it: environment, Telegram, processes, files.
