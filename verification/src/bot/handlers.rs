use dashmap::DashMap;
use vstd::prelude::*;

use crate::config::Config;
use crate::platform::matcher::Platform;
use crate::util::text::{decimal, push_decimal};
use crate::util::url::{
    extract_supported_urls, extracted_views, law_supported_links_keep_every_link, linkify_url_links,
    supported_links, with_platform, ExtractedUrl,
};

verus! {

#[verifier::external_type_specification]
#[verifier::external_body]
#[verifier::reject_recursive_types(K)]
#[verifier::reject_recursive_types(V)]
#[verifier::reject_recursive_types(S)]
pub struct ExDashMap<K, V, S>(DashMap<K, V, S>);

/// The table of last requests: user id to time in nanoseconds.
pub type RateLimitTable = DashMap<u64, u128>;

/// What a rate-limit table holds: for each user id, the time of that user's
/// last accepted request, in nanoseconds.
pub uninterp spec fn rate_limit_entries(m: RateLimitTable) -> Map<u64, u128>;

/// dashmap's `DashMap::new`: a map with no entries.
#[verifier::external_body]
fn new_rate_limit_table() -> (table: RateLimitTable)
    ensures
        rate_limit_entries(table) == no_requests(),
{
    DashMap::new()
}

/// dashmap's `DashMap::get`, the value copied out of the returned guard: the
/// entry of `user`, if there is one.
#[verifier::external_body]
fn rate_limit_lookup(m: &RateLimitTable, user: u64) -> (r: Option<u128>)
    ensures
        r == entry_of(rate_limit_entries(*m), user),
{
    match m.get(&user) {
        Some(at) => Some(*at),
        None => None,
    }
}

/// dashmap's `DashMap::insert`: afterwards `user` maps to `at`, and every other
/// entry is as it was.
#[verifier::external_body]
fn rate_limit_record(m: &mut RateLimitTable, user: u64, at: u128)
    ensures
        rate_limit_entries(*final(m)) == rate_limit_entries(*old(m)).insert(user, at),
{
    m.insert(user, at);
}

/// A table without entries.
pub open spec fn no_requests() -> Map<u64, u128> {
    Map::empty()
}

/// The entry of `user` in `m`, if there is one.
pub open spec fn entry_of(m: Map<u64, u128>, user: u64) -> Option<u128> {
    if m.dom().contains(user) {
        Some(m[user])
    } else {
        None
    }
}

/// Nanoseconds in a second.
pub const NANOS_PER_SEC: u128 = 1_000_000_000;

/// Whether a request at time `now` is accepted, for a user whose last accepted
/// request was at `last` (if any), with a cooldown of `cooldown` seconds:
/// refused while less than the cooldown has passed since then, with the whole
/// seconds still to wait plus one; accepted otherwise. A clock that went back
/// counts as no time passed.
pub open spec fn rate_decision(last: Option<u128>, now: u128, cooldown: u64) -> Result<(), u64> {
    match last {
        Some(t) => {
            let elapsed: int = if now >= t {
                now - t
            } else {
                0
            };
            let period: int = cooldown * 1_000_000_000;
            if elapsed < period {
                Err(((period - elapsed) / 1_000_000_000 + 1) as u64)
            } else {
                Ok(())
            }
        },
        None => Ok(()),
    }
}

/// The wait of a refusal fits in a `u64`: it does unless the cooldown is the
/// largest `u64` and no time has passed since the user's last request (the
/// whole cooldown plus one second would be owed).
pub open spec fn refusal_fits(last: Option<u128>, now: u128, cooldown: u64) -> bool {
    cooldown < u64::MAX || !(last matches Some(t) && now <= t)
}

/// The per-user rate limit of download requests.
pub struct State {
    rate_limits: RateLimitTable,
    rate_limit_seconds: u64,
}

impl State {
    /// For each user, the time of the last accepted request, in nanoseconds.
    pub closed spec fn last_requests(&self) -> Map<u64, u128> {
        rate_limit_entries(self.rate_limits)
    }

    /// How many seconds a user waits between two requests.
    pub closed spec fn cooldown(&self) -> u64 {
        self.rate_limit_seconds
    }

    /// How many seconds a user waits between two requests.
    pub fn cooldown_seconds(&self) -> (r: u64)
        ensures
            r == self.cooldown(),
    {
        self.rate_limit_seconds
    }

    /// Whether the wait of a refusal of `user_id` at `now` would fit in a `u64`.
    pub fn refusal_fits_now(&self, user_id: u64, now: u128) -> (r: bool)
        ensures
            r == refusal_fits(entry_of(self.last_requests(), user_id), now, self.cooldown()),
    {
        if self.rate_limit_seconds < u64::MAX {
            return true;
        }
        match rate_limit_lookup(&self.rate_limits, user_id) {
            Some(t) => now > t,
            None => true,
        }
    }

    /// A rate limit with the cooldown of `config` and no requests yet.
    pub fn new(config: &Config) -> (r: Self)
        ensures
            r.last_requests() == Map::<u64, u128>::empty(),
            r.cooldown() == config.rate_limit_seconds,
    {
        State { rate_limits: new_rate_limit_table(), rate_limit_seconds: config.rate_limit_seconds }
    }

    /// Decides a request of `user_id` at time `now` (nanoseconds on a clock
    /// that the caller keeps): an accepted request becomes the user's last
    /// one; a refused one says how many seconds to wait and changes nothing.
    /// The wait of a refusal must fit in a `u64`.
    pub fn check_rate_limit(&mut self, user_id: u64, now: u128) -> (r: Result<(), u64>)
        requires
            refusal_fits(entry_of(old(self).last_requests(), user_id), now, old(self).cooldown()),
        ensures
            r == rate_decision(entry_of(old(self).last_requests(), user_id), now, old(self).cooldown()),
            final(self).cooldown() == old(self).cooldown(),
            r is Ok ==> final(self).last_requests() == old(self).last_requests().insert(user_id, now),
            r is Err ==> final(self).last_requests() == old(self).last_requests(),
    {
        match rate_limit_lookup(&self.rate_limits, user_id) {
            Some(last) => {
                let elapsed: u128 = if now >= last {
                    now - last
                } else {
                    0
                };
                let secs: u128 = self.rate_limit_seconds as u128;
                assert(secs * NANOS_PER_SEC <= 0xffff_ffff_ffff_ffffu128 * 1_000_000_000) by (nonlinear_arith)
                    requires
                        secs <= 0xffff_ffff_ffff_ffffu128,
                ;
                let period: u128 = secs * NANOS_PER_SEC;
                if elapsed < period {
                    let left: u128 = (period - elapsed) / NANOS_PER_SEC;
                    assert(left <= secs) by (nonlinear_arith)
                        requires
                            left == (period - elapsed) / 1_000_000_000,
                            period == secs * 1_000_000_000,
                            elapsed < period,
                    ;
                    assert(elapsed > 0 ==> left < secs) by (nonlinear_arith)
                        requires
                            left == (period - elapsed) / 1_000_000_000,
                            period == secs * 1_000_000_000,
                            elapsed < period,
                    ;
                    return Err((left as u64) + 1);
                }
            },
            None => {},
        }
        rate_limit_record(&mut self.rate_limits, user_id, now);
        Ok(())
    }
}

/// A refusal always asks for at least one second and at most one second more
/// than the cooldown: the whole seconds of the cooldown still to run, plus
/// one. With `w` asked for, the time still to run is at least `w - 1` and less
/// than `w` seconds.
pub proof fn law_refusal_wait_bounds(last: Option<u128>, now: u128, cooldown: u64)
    requires
        refusal_fits(last, now, cooldown),
    ensures
        rate_decision(last, now, cooldown) matches Err(w) ==> 1 <= w <= cooldown + 1,
        match (last, rate_decision(last, now, cooldown)) {
            (Some(t), Err(w)) => {
                let left = cooldown * 1_000_000_000 - (if now >= t {
                    now - t
                } else {
                    0
                });
                &&& 0 < left
                &&& (w - 1) * 1_000_000_000 <= left
                &&& left < w * 1_000_000_000
            },
            _ => true,
        },
{
    if let Some(t) = last {
        let elapsed: int = if now >= t {
            now - t
        } else {
            0
        };
        let period: int = cooldown * NANOS_PER_SEC;
        if elapsed < period {
            assert((period - elapsed) / 1_000_000_000 <= cooldown) by (nonlinear_arith)
                requires
                    period == cooldown * 1_000_000_000,
                    0 <= elapsed < period,
            ;
            assert(elapsed > 0 ==> (period - elapsed) / 1_000_000_000 < cooldown) by (nonlinear_arith)
                requires
                    period == cooldown * 1_000_000_000,
                    0 <= elapsed < period,
            ;
            let q = (period - elapsed) / 1_000_000_000;
            assert(q * 1_000_000_000 <= period - elapsed < (q + 1) * 1_000_000_000) by (nonlinear_arith)
                requires
                    q == (period - elapsed) / 1_000_000_000,
                    0 <= period - elapsed,
            ;
            assert(q + 1 <= u64::MAX);
            assert(rate_decision(last, now, cooldown) == Err::<(), u64>((q + 1) as u64));
            let w: u64 = (q + 1) as u64;
            assert(w == q + 1);
            let left = cooldown * 1_000_000_000 - elapsed;
            assert(left == period - elapsed);
            assert((w - 1) * 1_000_000_000 <= left);
            assert(left < w * 1_000_000_000);
        }
    }
}

/// After an accepted request at `t1`, the same user is refused at any `t2`
/// before the cooldown has passed and accepted from then on; a user's first
/// request is always accepted.
pub proof fn law_cooldown_after_accept(m: Map<u64, u128>, user: u64, t1: u128, t2: u128, cooldown: u64)
    requires
        t1 <= t2,
    ensures
        entry_of(m, user) is None ==> rate_decision(entry_of(m, user), t1, cooldown) is Ok,
        (t2 - t1 < cooldown * 1_000_000_000) ==> rate_decision(
            entry_of(m.insert(user, t1), user),
            t2,
            cooldown,
        ) is Err,
        (t2 - t1 >= cooldown * 1_000_000_000) ==> rate_decision(
            entry_of(m.insert(user, t1), user),
            t2,
            cooldown,
        ) is Ok,
{
    assert(m.insert(user, t1).dom().contains(user));
}

/// A request only ever concerns its own user: the entries and decisions of
/// every other user stay as they were.
pub proof fn law_other_users_unaffected(m: Map<u64, u128>, user: u64, other: u64, now: u128, later: u128, cooldown: u64)
    requires
        user != other,
    ensures
        entry_of(m.insert(user, now), other) == entry_of(m, other),
        rate_decision(entry_of(m.insert(user, now), other), later, cooldown) == rate_decision(
            entry_of(m, other),
            later,
            cooldown,
        ),
{
    assert(m.insert(user, now).dom().contains(other) == m.dom().contains(other));
}

// ---------------------------------------------------------------------------
// Deciding what to do with a message.
// ---------------------------------------------------------------------------

/// What the bot does with a message.
pub enum MessagePlan {
    /// Nothing: the message has no text, no supported link or no sender.
    Ignore,
    /// Tell the sender to wait: the text of the reply.
    Wait(String),
    /// Download each of these links.
    Download(Vec<ExtractedUrl>),
}

/// The text of a message, if it has one.
pub open spec fn text_of(text: Option<&str>) -> Option<Seq<char>> {
    match text {
        Some(t) => Some(t@),
        None => None,
    }
}

/// A message can be decided: where it has supported links and a sender, the
/// wait of a refusal fits in a `u64`.
pub open spec fn message_decidable(state: State, text: Option<Seq<char>>, user: Option<u64>, now: u128) -> bool {
    match (text, user) {
        (Some(t), Some(u)) => supported_links(linkify_url_links(t)).len() > 0 ==> refusal_fits(
            entry_of(state.last_requests(), u),
            now,
            state.cooldown(),
        ),
        _ => true,
    }
}

/// What deciding a message does: it is ignored, leaving the rate limit as it
/// was, without text, without supported links or without a sender; otherwise
/// the rate limit decides between a wait notice, changing nothing, and
/// downloading every supported link in order, recording the request.
pub open spec fn message_decided(
    before: State,
    after: State,
    text: Option<Seq<char>>,
    user: Option<u64>,
    now: u128,
    r: MessagePlan,
) -> bool {
    match text {
        None => r is Ignore && after == before,
        Some(t) => {
            let links = supported_links(linkify_url_links(t));
            if links.len() == 0 {
                r is Ignore && after == before
            } else {
                match user {
                    None => r is Ignore && after == before,
                    Some(u) => {
                        let d = rate_decision(entry_of(before.last_requests(), u), now, before.cooldown());
                        &&& after.cooldown() == before.cooldown()
                        &&& match d {
                            Ok(()) => r matches MessagePlan::Download(urls) && extracted_views(urls@)
                                == links && after.last_requests() == before.last_requests().insert(u, now),
                            Err(w) => r matches MessagePlan::Wait(notice) && notice@ == wait_notice(w)
                                && after.last_requests() == before.last_requests(),
                        }
                    },
                }
            }
        },
    }
}

/// A message with text and a sender that the rate limit accepts is answered
/// by downloading every link of its text that linkify finds and that has a
/// platform, in order, each with that platform: none is dropped; and a
/// message whose text has no such link is ignored.
pub proof fn law_accepted_message_downloads_every_link(
    before: State,
    after: State,
    t: Seq<char>,
    u: u64,
    now: u128,
    r: MessagePlan,
)
    requires
        message_decided(before, after, Some(t), Some(u), now, r),
    ensures
        linkify_url_links(t).filter_map(|l: Seq<char>| with_platform(l)).len() == 0 ==> r is Ignore,
        linkify_url_links(t).filter_map(|l: Seq<char>| with_platform(l)).len() > 0 && rate_decision(
            entry_of(before.last_requests(), u),
            now,
            before.cooldown(),
        ) is Ok ==> (r matches MessagePlan::Download(urls) && extracted_views(urls@)
            == linkify_url_links(t).filter_map(|l: Seq<char>| with_platform(l))),
{
    law_supported_links_keep_every_link(linkify_url_links(t));
}

/// Decides a message with text `text` (if any) from user `user` (if known)
/// at time `now`.
pub fn plan_message(state: &mut State, text: Option<&str>, user: Option<u64>, now: u128) -> (r: MessagePlan)
    requires
        message_decidable(*old(state), text_of(text), user, now),
    ensures
        message_decided(*old(state), *final(state), text_of(text), user, now, r),
{
    let t = match text {
        Some(t) => t,
        None => return MessagePlan::Ignore,
    };
    let urls = extract_supported_urls(t);
    if urls.len() == 0 {
        return MessagePlan::Ignore;
    }
    let u = match user {
        Some(u) => u,
        None => return MessagePlan::Ignore,
    };
    match state.check_rate_limit(u, now) {
        Ok(()) => MessagePlan::Download(urls),
        Err(w) => MessagePlan::Wait(wait_message(w)),
    }
}

/// Decides a message where it can be decided (see `plan_message`); `None`,
/// with the rate limit unchanged, where the wait of a refusal would not fit in
/// a `u64`.
pub fn try_plan_message(state: &mut State, text: Option<&str>, user: Option<u64>, now: u128) -> (r: Option<MessagePlan>)
    ensures
        r is None <==> !message_decidable(*old(state), text_of(text), user, now),
        r is None ==> *final(state) == *old(state),
        r matches Some(p) ==> message_decided(*old(state), *final(state), text_of(text), user, now, p),
{
    match (text, user) {
        (Some(t), Some(u)) => {
            if !state.refusal_fits_now(u, now) {
                let urls = extract_supported_urls(t);
                if urls.len() > 0 {
                    return None;
                }
            }
        },
        _ => {},
    }
    Some(plan_message(state, text, user, now))
}

// ---------------------------------------------------------------------------
// Texts shown to the user.
// ---------------------------------------------------------------------------

/// The reply to a request that came too early.
pub open spec fn wait_notice(seconds: u64) -> Seq<char> {
    "Please wait "@ + decimal(seconds as nat) + "s before the next download."@
}

/// The reply to a request that came `seconds` too early.
pub fn wait_message(seconds: u64) -> (r: String)
    ensures
        r@ == wait_notice(seconds),
{
    let mut s = String::from_str("Please wait ");
    push_decimal(&mut s, seconds);
    s.append("s before the next download.");
    s
}

/// The status message while a link is being downloaded.
pub fn downloading_status(platform: Platform) -> (r: String)
    ensures
        r@ == "Downloading from "@ + platform.name() + "..."@,
{
    let mut s = String::from_str("Downloading from ");
    s.append(platform.display_name());
    s.append("...");
    s
}

/// The status message while `count` files are being uploaded.
pub fn uploading_status(count: usize) -> (r: String)
    ensures
        r@ == "Uploading "@ + decimal(count as nat) + " file(s)..."@,
{
    let mut s = String::from_str("Uploading ");
    push_decimal(&mut s, count as u64);
    s.append(" file(s)...");
    s
}

/// The status message after a download failed with `error_text`.
pub fn failure_status(error_text: &str) -> (r: String)
    ensures
        r@ == "Failed: "@ + error_text@,
{
    let mut s = String::from_str("Failed: ");
    s.append(error_text);
    s
}

/// The longest caption, in characters.
pub const CAPTION_MAX_CHARS: usize = 200;

/// The first `max_len` characters of `s` (all of it if shorter).
pub fn truncate(s: &str, max_len: usize) -> (r: &str)
    ensures
        r@ == s@.take(if s@.len() < max_len {
            s@.len() as int
        } else {
            max_len as int
        }),
{
    let n = s.unicode_len();
    let k = if n < max_len {
        n
    } else {
        max_len
    };
    s.substring_char(0, k)
}

/// The caption of a download with title `title`: its first 200 characters.
pub fn caption_from_title(title: &Option<String>) -> (r: Option<String>)
    ensures
        match title {
            Some(t) => r matches Some(c) && c@ == t@.take(if t@.len() < 200 {
                t@.len() as int
            } else {
                200
            }),
            None => r is None,
        },
{
    match title {
        Some(t) => Some(String::from_str(truncate(t.as_str(), CAPTION_MAX_CHARS))),
        None => None,
    }
}

/// The caption sent with the file at `index`: only the first file carries it.
pub fn caption_for_item(index: usize, caption: &Option<String>) -> (r: Option<String>)
    ensures
        index == 0 ==> r == *caption,
        index != 0 ==> r is None,
{
    if index == 0 {
        match caption {
            Some(c) => Some(c.clone()),
            None => None,
        }
    } else {
        None
    }
}

} // verus!
