use vstd::prelude::*;

use crate::util::text::{decimal, digit_char, str_chars};

verus! {

/// Settings of the bot.
#[derive(Debug, Clone)]
pub struct Config {
    /// How many downloads may run at once.
    pub max_concurrent_downloads: usize,
    /// How long a user waits between two download requests.
    pub rate_limit_seconds: u64,
    /// A `cookies.txt` handed to yt-dlp, if any.
    pub cookies_path: Option<String>,
}

/// The default of `max_concurrent_downloads`.
pub const DEFAULT_MAX_CONCURRENT_DOWNLOADS: usize = 4;

/// The default of `rate_limit_seconds`.
pub const DEFAULT_RATE_LIMIT_SECONDS: u64 = 10;

/// `c` is an ASCII decimal digit.
pub open spec fn is_digit(c: char) -> bool {
    '0' <= c && c <= '9'
}

/// Every character of `d` is an ASCII decimal digit.
pub open spec fn all_digits(d: Seq<char>) -> bool {
    forall|k: int| 0 <= k < d.len() ==> is_digit(#[trigger] d[k])
}

/// The number that the ASCII digits `d` write in decimal.
pub open spec fn digits_value(d: Seq<char>) -> nat
    decreases d.len(),
{
    if d.len() == 0 {
        0
    } else {
        digits_value(d.drop_last()) * 10 + (d.last() as nat - '0' as nat) as nat
    }
}

/// What `str::parse` gives for an unsigned integer type whose largest value is
/// `max`: an optional `+`, then one or more ASCII digits whose value is at
/// most `max`; anything else is refused.
pub open spec fn parse_unsigned(s: Seq<char>, max: nat) -> Option<nat> {
    let d = if s.len() > 0 && s[0] == '+' {
        s.drop_first()
    } else {
        s
    };
    if d.len() > 0 && all_digits(d) && digits_value(d) <= max {
        Some(digits_value(d))
    } else {
        None
    }
}

proof fn lemma_digits_value_grows(d: Seq<char>, i: int, j: int)
    requires
        0 <= i <= j <= d.len(),
        forall|k: int| 0 <= k < d.len() ==> is_digit(#[trigger] d[k]),
    ensures
        digits_value(d.take(i)) <= digits_value(d.take(j)),
    decreases j - i,
{
    if i < j {
        lemma_digits_value_grows(d, i, j - 1);
        assert(d.take(j).drop_last() =~= d.take(j - 1));
        assert(is_digit(d[j - 1]));
    }
}

proof fn lemma_decimal_digits(n: nat)
    ensures
        decimal(n).len() > 0,
        all_digits(decimal(n)),
        digits_value(decimal(n)) == n,
    decreases n,
{
    let d = digit_char(n % 10);
    assert(d as nat - '0' as nat == n % 10);
    assert(is_digit(d));
    if n >= 10 {
        lemma_decimal_digits(n / 10);
        let x = decimal(n / 10);
        assert(decimal(n).drop_last() =~= x);
        assert(decimal(n).last() == d);
        assert(digits_value(decimal(n)) == digits_value(x) * 10 + (d as nat - '0' as nat) as nat);
        assert((n / 10) * 10 + n % 10 == n);
        assert forall|k: int| 0 <= k < decimal(n).len() implies is_digit(#[trigger] decimal(n)[k]) by {
            if k < x.len() {
                assert(decimal(n)[k] == x[k]);
            }
        }
    } else {
        assert(decimal(n).drop_last() =~= Seq::<char>::empty());
        assert(decimal(n).last() == d);
        assert(digits_value(decimal(n)) == digits_value(Seq::<char>::empty()) * 10 + (d as nat - '0' as nat) as nat);
    }
}

/// Parsing reads back what decimal notation writes: the decimal notation of
/// `n`, with or without a leading `+`, parses to `n` where `n` fits in the
/// type and is refused where it does not; a leading `-` is always refused.
pub proof fn law_parse_reads_decimal(n: nat, max: nat)
    ensures
        parse_unsigned(decimal(n), max) == if n <= max {
            Some(n)
        } else {
            None::<nat>
        },
        parse_unsigned(seq!['+'] + decimal(n), max) == if n <= max {
            Some(n)
        } else {
            None::<nat>
        },
        parse_unsigned(seq!['-'] + decimal(n), max) is None,
{
    lemma_decimal_digits(n);
    let d = decimal(n);
    assert(is_digit(d[0]));
    assert((seq!['+'] + d).drop_first() =~= d);
    let m = seq!['-'] + d;
    assert(m[0] == '-');
    assert(!is_digit(m[0]));
}

/// Parses `s` as `str::parse` does for an unsigned integer type whose largest
/// value is `max`.
pub fn parse_unsigned_text(s: &str, max: u64) -> (r: Option<u64>)
    ensures
        match parse_unsigned(s@, max as nat) {
            Some(v) => r == Some(v as u64),
            None => r is None,
        },
{
    let chars = str_chars(s);
    let start: usize = if chars.len() > 0 && chars[0] == '+' {
        1
    } else {
        0
    };
    let ghost d = if s@.len() > 0 && s@[0] == '+' {
        s@.drop_first()
    } else {
        s@
    };
    assert(d =~= chars@.skip(start as int));
    if chars.len() == start {
        return None;
    }
    let mut value: u128 = 0;
    let mut i: usize = start;
    while i < chars.len()
        invariant
            start <= i <= chars@.len(),
            chars@ == s@,
            d == (if s@.len() > 0 && s@[0] == '+' {
                s@.drop_first()
            } else {
                s@
            }),
            d == chars@.skip(start as int),
            d.len() > 0,
            forall|k: int| 0 <= k < i - start ==> is_digit(#[trigger] d[k]),
            value == digits_value(d.take(i - start)),
            value <= max,
        decreases chars@.len() - i,
    {
        let c = chars[i];
        if !('0' <= c && c <= '9') {
            assert(!is_digit(d[i - start]));
            assert(!all_digits(d));
            assert(parse_unsigned(s@, max as nat) is None);
            return None;
        }
        let digit: u128 = ((c as u32) - ('0' as u32)) as u128;
        assert(value * 10 + digit <= 0xffff_ffff_ffff_ffffu128 * 10 + 9) by (nonlinear_arith)
            requires
                value <= 0xffff_ffff_ffff_ffffu128,
                digit <= 9,
        ;
        let next: u128 = value * 10 + digit;
        let ghost k = i - start;
        assert(d.take(k + 1).drop_last() =~= d.take(k));
        assert(d.take(k + 1).last() == c);
        assert(next == digits_value(d.take(k + 1)));
        if next > max as u128 {
            proof {
                // Whatever digits follow, the value only grows past `max`.
                if all_digits(d) {
                    lemma_digits_value_grows(d, k + 1, d.len() as int);
                    assert(d.take(d.len() as int) =~= d);
                }
                assert(parse_unsigned(s@, max as nat) is None);
            }
            return None;
        }
        value = next;
        i = i + 1;
    }
    assert(d.take(d.len() as int) =~= d);
    Some(value as u64)
}

impl Config {
    /// The configuration that the given setting texts describe: each number is
    /// parsed as `str::parse` does and falls back to its default where it is
    /// absent or refused; the cookies path is taken as it is.
    pub fn from_settings(
        max_concurrent_downloads: Option<String>,
        rate_limit_seconds: Option<String>,
        cookies_path: Option<String>,
    ) -> (r: Config)
        ensures
            r.max_concurrent_downloads == match max_concurrent_downloads {
                Some(t) => match parse_unsigned(t@, usize::MAX as nat) {
                    Some(v) => v,
                    None => 4,
                },
                None => 4,
            },
            r.rate_limit_seconds == match rate_limit_seconds {
                Some(t) => match parse_unsigned(t@, u64::MAX as nat) {
                    Some(v) => v,
                    None => 10,
                },
                None => 10,
            },
            r.cookies_path == cookies_path,
    {
        let max_concurrent: usize = match &max_concurrent_downloads {
            Some(t) => match parse_unsigned_text(t.as_str(), usize::MAX as u64) {
                Some(v) => v as usize,
                None => DEFAULT_MAX_CONCURRENT_DOWNLOADS,
            },
            None => DEFAULT_MAX_CONCURRENT_DOWNLOADS,
        };
        let rate_limit: u64 = match &rate_limit_seconds {
            Some(t) => match parse_unsigned_text(t.as_str(), u64::MAX) {
                Some(v) => v,
                None => DEFAULT_RATE_LIMIT_SECONDS,
            },
            None => DEFAULT_RATE_LIMIT_SECONDS,
        };
        Config {
            max_concurrent_downloads: max_concurrent,
            rate_limit_seconds: rate_limit,
            cookies_path,
        }
    }

    /// A copy of this configuration, field by field.
    pub(crate) fn duplicate(&self) -> (r: Config)
        ensures
            r == *self,
    {
        Config {
            max_concurrent_downloads: self.max_concurrent_downloads,
            rate_limit_seconds: self.rate_limit_seconds,
            cookies_path: match &self.cookies_path {
                Some(p) => Some(p.clone()),
                None => None,
            },
        }
    }
}

} // verus!
