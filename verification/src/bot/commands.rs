use vstd::prelude::*;

verus! {

/// The commands of the bot.
#[derive(Debug, Clone, Copy, PartialEq, Eq, Structural)]
pub enum Command {
    /// Show the welcome message.
    Start,
    /// Show usage information.
    Help,
}

/// The text sent in answer to `/start`.
pub open spec fn start_text() -> Seq<char> {
    "Welcome to the Media Download Bot!\n\n\
     Send me a link from YouTube, TikTok, Instagram, or Facebook \
     and I'll download the video or photos for you.\n\n\
     Works in private chat and groups. In groups, mention me with a link: @botname <link>\n\n\
     Type /help for more info."@
}

/// The text sent in answer to `/help`.
pub open spec fn help_text() -> Seq<char> {
    "Supported platforms:\n\
     • YouTube (videos, shorts)\n\
     • TikTok (videos)\n\
     • Instagram (reels, posts, stories)\n\
     • Facebook (videos, reels)\n\n\
     Just paste a link and I'll handle the rest.\n\n\
     Groups: Add me to a group and mention me with a link, e.g. @botname https://...\n\
     Or disable privacy mode in @BotFather so I see all messages.\n\n\
     Note: Large files (>50 MB) will be sent as documents.\n\
     Instagram carousel photos may require cookies for full access."@
}

/// The text sent in answer to a command.
pub fn command_reply(cmd: Command) -> (r: &'static str)
    ensures
        r@ == match cmd {
            Command::Start => start_text(),
            Command::Help => help_text(),
        },
{
    match cmd {
        Command::Start => {
            "Welcome to the Media Download Bot!\n\n\
             Send me a link from YouTube, TikTok, Instagram, or Facebook \
             and I'll download the video or photos for you.\n\n\
             Works in private chat and groups. In groups, mention me with a link: @botname <link>\n\n\
             Type /help for more info."
        },
        Command::Help => {
            "Supported platforms:\n\
             • YouTube (videos, shorts)\n\
             • TikTok (videos)\n\
             • Instagram (reels, posts, stories)\n\
             • Facebook (videos, reels)\n\n\
             Just paste a link and I'll handle the rest.\n\n\
             Groups: Add me to a group and mention me with a link, e.g. @botname https://...\n\
             Or disable privacy mode in @BotFather so I see all messages.\n\n\
             Note: Large files (>50 MB) will be sent as documents.\n\
             Instagram carousel photos may require cookies for full access."
        },
    }
}

} // verus!
