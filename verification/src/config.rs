//! Runtime knobs of the `/live.gif` route: the trailer policy and the frame
//! interval, read from their textual settings and written back as text.

use vstd::prelude::*;

use crate::gif_stream::{Interval, TrailerPolicy};
use crate::text::{
    decimal, has_prefix, parse_unsigned, parse_unsigned_decimal, push_decimal, str_equals,
    str_starts_with, str_strip_repeated_prefix, strip_repeated_prefix,
};

verus! {

/// Address the server listens on.
pub const BIND_ADDR: &'static str = "127.0.0.1:3000";

/// `Content-Type` of the GIF body.
pub const GIF_CONTENT_TYPE: &'static str = "image/gif";

/// `Cache-Control` of the GIF body: every request starts a fresh stream.
pub const GIF_CACHE_CONTROL: &'static str = "no-store";

/// Number of frames of a finite file when no (valid) count is configured.
pub const DEFAULT_FRAME_COUNT: u32 = 10;

/// Milliseconds between frames when no (valid) interval is configured.
pub const DEFAULT_INTERVAL_MS: u64 = 1000;

/// Runtime knobs for `/live.gif`.
pub struct StreamConfig {
    pub interval: Interval,
    pub policy: TrailerPolicy,
}

impl Clone for StreamConfig {
    fn clone(&self) -> (r: Self)
        ensures
            r.interval@ == self.interval@,
            r.policy == self.policy,
    {
        StreamConfig { interval: self.interval.clone(), policy: self.policy }
    }
}

impl Default for StreamConfig {
    /// One frame per second, closed after ten frames.
    fn default() -> (r: Self)
        ensures
            r.interval@ == 1_000_000_000,
            r.policy == TrailerPolicy::AfterN(10),
    {
        StreamConfig { interval: Interval::from_millis(DEFAULT_INTERVAL_MS), policy: TrailerPolicy::AfterN(DEFAULT_FRAME_COUNT) }
    }
}

/// `"never"`.
pub open spec fn never_text() -> Seq<char> {
    seq!['n', 'e', 'v', 'e', 'r']
}

/// `"ondrop"`.
pub open spec fn ondrop_text() -> Seq<char> {
    seq!['o', 'n', 'd', 'r', 'o', 'p']
}

/// `"after:"`, the prefix of a finite policy's setting.
pub open spec fn after_prefix() -> Seq<char> {
    seq!['a', 'f', 't', 'e', 'r', ':']
}

/// The text of a policy: `never`, `ondrop` or `after:N`.
pub open spec fn policy_text(policy: TrailerPolicy) -> Seq<char> {
    match policy {
        TrailerPolicy::Never => never_text(),
        TrailerPolicy::OnDrop => ondrop_text(),
        TrailerPolicy::AfterN(n) => after_prefix() + decimal(n as nat),
    }
}

/// The policy a setting selects: `never`, `ondrop`, or `after:N` (the
/// prefix may repeat; a count that is not a valid `u32` means 10); no
/// setting, or any other text, means `after:10`.
pub open spec fn policy_from_setting(setting: Option<Seq<char>>) -> TrailerPolicy {
    match setting {
        Some(s) => if s == never_text() {
            TrailerPolicy::Never
        } else if s == ondrop_text() {
            TrailerPolicy::OnDrop
        } else if has_prefix(s, after_prefix()) {
            TrailerPolicy::AfterN(
                match parse_unsigned(strip_repeated_prefix(s, after_prefix()), u32::MAX as nat) {
                    Some(n) => n as u32,
                    None => 10,
                },
            )
        } else {
            TrailerPolicy::AfterN(10)
        },
        None => TrailerPolicy::AfterN(10),
    }
}

/// The frame interval, in nanoseconds, that a setting of milliseconds
/// selects: a valid `u64` count of milliseconds, else one second.
pub open spec fn interval_from_setting(setting: Option<Seq<char>>) -> nat {
    match setting {
        Some(s) => match parse_unsigned(s, u64::MAX as nat) {
            Some(ms) => ms * 1_000_000,
            None => 1_000_000_000,
        },
        None => 1_000_000_000,
    }
}

/// The characters of an optional string.
pub open spec fn setting_view(setting: Option<&str>) -> Option<Seq<char>> {
    match setting {
        Some(s) => Some(s@),
        None => None,
    }
}

/// The text of a policy, as the server reports it.
pub fn format_trailer_policy(policy: TrailerPolicy) -> (r: String)
    ensures
        r@ == policy_text(policy),
{
    match policy {
        TrailerPolicy::Never => {
            proof {
                reveal_strlit("never");
                assert("never"@ =~= never_text());
            }
            String::from_str("never")
        },
        TrailerPolicy::OnDrop => {
            proof {
                reveal_strlit("ondrop");
                assert("ondrop"@ =~= ondrop_text());
            }
            String::from_str("ondrop")
        },
        TrailerPolicy::AfterN(n) => {
            proof {
                reveal_strlit("after:");
                assert("after:"@ =~= after_prefix());
            }
            let mut text = String::from_str("after:");
            push_decimal(&mut text, n as u64);
            text
        },
    }
}

/// The trailer policy a setting selects (see `policy_from_setting`).
pub fn trailer_policy_from_setting(setting: Option<&str>) -> (r: TrailerPolicy)
    ensures
        r == policy_from_setting(setting_view(setting)),
{
    proof {
        reveal_strlit("never");
        reveal_strlit("ondrop");
        reveal_strlit("after:");
        assert("never"@ =~= never_text());
        assert("ondrop"@ =~= ondrop_text());
        assert("after:"@ =~= after_prefix());
    }
    match setting {
        Some(value) => {
            if str_equals(value, "never") {
                TrailerPolicy::Never
            } else if str_equals(value, "ondrop") {
                TrailerPolicy::OnDrop
            } else if str_starts_with(value, "after:") {
                let count = str_strip_repeated_prefix(value, "after:");
                let n: u32 = match parse_unsigned_decimal(count, u32::MAX as u64) {
                    Some(n) => n as u32,
                    None => DEFAULT_FRAME_COUNT,
                };
                TrailerPolicy::AfterN(n)
            } else {
                TrailerPolicy::AfterN(DEFAULT_FRAME_COUNT)
            }
        },
        None => TrailerPolicy::AfterN(DEFAULT_FRAME_COUNT),
    }
}

/// The stream configuration that the two settings select: the trailer
/// policy (see `policy_from_setting`) and the interval in milliseconds
/// (see `interval_from_setting`).
pub fn stream_config_from_settings(trailer: Option<&str>, interval_ms: Option<&str>) -> (r:
    StreamConfig)
    ensures
        r.policy == policy_from_setting(setting_view(trailer)),
        r.interval@ == interval_from_setting(setting_view(interval_ms)),
{
    let mut config = StreamConfig::default();
    config.policy = trailer_policy_from_setting(trailer);
    if let Some(text) = interval_ms {
        if let Some(ms) = parse_unsigned_decimal(text, u64::MAX) {
            config.interval = Interval::from_millis(ms);
        }
    }
    config
}

/// Reading back the text of a policy gives that policy.
pub proof fn lemma_policy_text_roundtrip(policy: TrailerPolicy)
    ensures
        policy_from_setting(Some(policy_text(policy))) == policy,
{
    match policy {
        TrailerPolicy::Never => {},
        TrailerPolicy::OnDrop => {
            assert(ondrop_text() != never_text()) by {
                assert(ondrop_text().len() != never_text().len());
            }
        },
        TrailerPolicy::AfterN(n) => {
            let s = policy_text(policy);
            crate::text::lemma_decimal_digits(n as nat);
            crate::text::lemma_parse_decimal_roundtrip(n as nat, u32::MAX as nat);
            assert(s[0] == 'a');
            assert(s != never_text());
            assert(s != ondrop_text());
            assert(s.take(6) =~= after_prefix());
            assert(s.skip(6) =~= decimal(n as nat));
            let d = decimal(n as nat);
            assert(!has_prefix(d, after_prefix())) by {
                assert(crate::text::is_digit(d[0]));
                if has_prefix(d, after_prefix()) {
                    assert(d.take(6)[0] == 'a');
                }
            }
            assert(strip_repeated_prefix(d, after_prefix()) == d);
            assert(strip_repeated_prefix(s, after_prefix()) == d);
        },
    }
}

/// The interval setting is a count of milliseconds: the decimal text of
/// any `u64` count `ms` selects an interval of `ms` milliseconds.
pub proof fn lemma_interval_setting_is_milliseconds(ms: u64)
    ensures
        interval_from_setting(Some(decimal(ms as nat))) == ms * 1_000_000,
{
    crate::text::lemma_parse_decimal_roundtrip(ms as nat, u64::MAX as nat);
}

} // verus!
