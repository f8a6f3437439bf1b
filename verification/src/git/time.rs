//! Human-readable relative timestamps ("5m ago").

use vstd::prelude::*;
use crate::strings::{decimal, push_decimal};

verus! {

/// `now - seconds`, clamped to the range of `i64`.
pub open spec fn saturating_diff(now: i64, seconds: i64) -> int {
    let d = now - seconds;
    if d > i64::MAX {
        i64::MAX as int
    } else if d < i64::MIN {
        i64::MIN as int
    } else {
        d
    }
}

/// The text shown for a commit made at `seconds` when the clock reads `now`:
/// future timestamps read "just now"; otherwise the elapsed time in the
/// largest unit among seconds, minutes, hours, days, 30-day months and
/// 365-day years that fits, rounded down.
pub open spec fn relative_time_text(seconds: i64, now: i64) -> Seq<char> {
    let diff = saturating_diff(now, seconds);
    if diff < 0 {
        "just now"@
    } else if diff < 60 {
        decimal(diff as nat) + "s ago"@
    } else if diff < 3600 {
        decimal((diff / 60) as nat) + "m ago"@
    } else if diff < 86400 {
        decimal((diff / 3600) as nat) + "h ago"@
    } else if diff < 2592000 {
        decimal((diff / 86400) as nat) + "d ago"@
    } else if diff < 31536000 {
        decimal((diff / 2592000) as nat) + "mo ago"@
    } else {
        decimal((diff / 31536000) as nat) + "y ago"@
    }
}

/// Relative time of `seconds` as seen at `now`.
pub fn format_relative_time_with_now(seconds: i64, now: i64) -> (r: String)
    ensures
        r@ == relative_time_text(seconds, now),
{
    let diff: i64 = match now.checked_sub(seconds) {
        Some(d) => d,
        None => if seconds < 0 { i64::MAX } else { i64::MIN },
    };
    if diff < 0 {
        return String::from_str("just now");
    }
    let mut s = String::new();
    if diff < 60 {
        push_decimal(&mut s, diff as u64);
        s.append("s ago");
    } else if diff < 3600 {
        push_decimal(&mut s, (diff / 60) as u64);
        s.append("m ago");
    } else if diff < 86400 {
        push_decimal(&mut s, (diff / 3600) as u64);
        s.append("h ago");
    } else if diff < 2592000 {
        push_decimal(&mut s, (diff / 86400) as u64);
        s.append("d ago");
    } else if diff < 31536000 {
        push_decimal(&mut s, (diff / 2592000) as u64);
        s.append("mo ago");
    } else {
        push_decimal(&mut s, (diff / 31536000) as u64);
        s.append("y ago");
    }
    s
}

} // verus!
