//! The collector's timing decisions: the polling interval, the five-minute
//! history windows, and the hourly purge of old history.
use vstd::prelude::*;
use crate::alerts::{whole_secs_between, whole_secs_elapsed};
use crate::text::{append_decimal, chars_of, decimal, digit_char};

verus! {

/// Polling interval used when no valid setting is stored, in milliseconds.
pub const DEFAULT_POLL_MS: u64 = 2000;

/// Smallest polling interval a setting may choose, in milliseconds.
pub const MIN_POLL_MS: u64 = 1000;

/// Largest polling interval a setting may choose, in milliseconds.
pub const MAX_POLL_MS: u64 = 10000;

/// Seconds between two reloads of the polling interval setting.
pub const INTERVAL_RELOAD_SECS: u64 = 60;

/// Minutes in one history window.
pub const WINDOW_MINUTES: u32 = 5;

/// `c` is one of the digits `0` to `9`.
pub open spec fn is_digit(c: char) -> bool {
    '0' <= c && c <= '9'
}

/// The value of a run of decimal digits.
pub open spec fn digits_value(s: Seq<char>) -> nat
    decreases s.len(),
{
    if s.len() == 0 {
        0
    } else {
        digits_value(s.drop_last()) * 10 + ((s.last() as int) - ('0' as int)) as nat
    }
}

/// `s` is made of decimal digits only.
pub open spec fn all_digits(s: Seq<char>) -> bool {
    forall|i: int| 0 <= i < s.len() ==> is_digit(s[i])
}

/// The text after an optional leading `+`.
pub open spec fn unsigned_digits(s: Seq<char>) -> Seq<char> {
    if s.len() > 0 && s[0] == '+' {
        s.drop_first()
    } else {
        s
    }
}

/// The value of a text as `u64::from_str` reads it: an optional `+` followed
/// by at least one digit and nothing else, with a value that fits in 64 bits.
pub open spec fn spec_parse_u64(s: Seq<char>) -> Option<u64> {
    let digits = unsigned_digits(s);
    if digits.len() > 0 && all_digits(digits) && digits_value(digits) <= u64::MAX {
        Some(digits_value(digits) as u64)
    } else {
        None
    }
}

proof fn lemma_digits_value_grows(s: Seq<char>, k: int)
    requires
        all_digits(s),
        0 <= k <= s.len(),
    ensures
        digits_value(s.take(k)) <= digits_value(s),
    decreases s.len(),
{
    if k < s.len() {
        assert(all_digits(s.drop_last()));
        lemma_digits_value_grows(s.drop_last(), k);
        assert(s.drop_last().take(k) =~= s.take(k));
    } else {
        assert(s.take(k) =~= s);
    }
}

/// Read a decimal `u64` from text.
pub fn parse_u64(s: &str) -> (r: Option<u64>)
    ensures
        r == spec_parse_u64(s@),
{
    let cs = chars_of(s);
    let ghost digits = unsigned_digits(s@);
    let start: usize = if cs.len() > 0 && cs[0] == '+' {
        1
    } else {
        0
    };
    if start == cs.len() {
        return None;
    }
    assert(digits =~= cs@.skip(start as int));
    let mut value: u64 = 0;
    let mut i: usize = start;
    while i < cs.len()
        invariant
            cs@ == s@,
            digits == unsigned_digits(s@),
            digits == cs@.skip(start as int),
            start <= i <= cs@.len(),
            all_digits(digits.take(i - start)),
            value == digits_value(digits.take(i - start)),
        decreases cs.len() - i,
    {
        let c = cs[i];
        assert(digits.take(i + 1 - start).drop_last() =~= digits.take(i - start));
        assert(digits[i - start] == c);
        if !('0' <= c && c <= '9') {
            assert(!is_digit(digits[i - start]));
            return None;
        }
        let d = (c as u32 - '0' as u32) as u64;
        let next = match value.checked_mul(10) {
            Some(v) => v.checked_add(d),
            None => None,
        };
        match next {
            Some(v) => {
                value = v;
            },
            None => {
                proof {
                    if all_digits(digits) {
                        lemma_digits_value_grows(digits, i + 1 - start);
                    }
                }
                return None;
            },
        }
        i = i + 1;
    }
    assert(digits.take(i - start) =~= digits);
    Some(value)
}

/// The polling interval a stored setting chooses: its value when it reads as a
/// number from 1000 to 10000 milliseconds, 2000 otherwise.
pub open spec fn spec_poll_interval(setting: Option<Seq<char>>) -> u64 {
    match setting {
        Some(s) => match spec_parse_u64(s) {
            Some(ms) => if MIN_POLL_MS <= ms && ms <= MAX_POLL_MS {
                ms
            } else {
                DEFAULT_POLL_MS
            },
            None => DEFAULT_POLL_MS,
        },
        None => DEFAULT_POLL_MS,
    }
}

/// The polling interval from the stored `polling_interval_ms` setting, if any.
pub fn poll_interval_from_setting(setting: Option<&str>) -> (r: u64)
    ensures
        r == spec_poll_interval(
            match setting {
                Some(s) => Some(s@),
                None => None,
            },
        ),
{
    match setting {
        Some(s) => match parse_u64(s) {
            Some(ms) => if MIN_POLL_MS <= ms && ms <= MAX_POLL_MS {
                ms
            } else {
                DEFAULT_POLL_MS
            },
            None => DEFAULT_POLL_MS,
        },
        None => DEFAULT_POLL_MS,
    }
}

/// Whatever is stored, the collector polls every 1 to 10 seconds.
pub proof fn law_poll_interval_in_range(setting: Option<Seq<char>>)
    ensures
        MIN_POLL_MS <= spec_poll_interval(setting) <= MAX_POLL_MS,
{
}

/// The polling interval setting is due for a reload: a whole minute has
/// passed since the last check.
pub fn interval_reload_due(last_check_ns: u64, now_ns: u64) -> (r: bool)
    ensures
        r == (whole_secs_between(last_check_ns, now_ns) >= INTERVAL_RELOAD_SECS),
{
    whole_secs_elapsed(last_check_ns, now_ns) >= INTERVAL_RELOAD_SECS
}

/// The first minute of the five-minute window that holds `minute`.
pub fn window_start_minute(minute: u32) -> (r: u32)
    ensures
        r == minute - minute % 5,
{
    minute - minute % WINDOW_MINUTES
}

/// History windows: the window start is a multiple of five minutes and is
/// the last such minute not after the given one.
pub proof fn law_window_start_aligned(minute: u32)
    ensures
        (minute - minute % 5) % 5 == 0,
        minute - minute % 5 <= minute < minute - minute % 5 + 5,
{
}

/// When the history was last flushed and last purged.
#[derive(Clone, Copy, Debug)]
pub struct HistorySchedule {
    pub last_flush_minute: u32,
    pub last_purge_hour: u32,
}

/// A flush is due at `now_minute`: it is on a five-minute boundary and not
/// the minute of the last flush.
pub open spec fn spec_flush_due(last_flush_minute: u32, now_minute: u32) -> bool {
    now_minute % 5 == 0 && now_minute != last_flush_minute
}

impl HistorySchedule {
    /// A schedule that counts the current minute and hour as already handled.
    pub fn new(minute: u32, hour: u32) -> (r: Self)
        ensures
            r.last_flush_minute == minute,
            r.last_purge_hour == hour,
    {
        HistorySchedule { last_flush_minute: minute, last_purge_hour: hour }
    }

    /// Whether the buffered history is to be flushed at `now_minute`; when it
    /// is, the minute is recorded as flushed.
    pub fn take_flush(&mut self, now_minute: u32) -> (r: bool)
        ensures
            r == spec_flush_due(old(self).last_flush_minute, now_minute),
            final(self).last_flush_minute == (if r {
                now_minute
            } else {
                old(self).last_flush_minute
            }),
            final(self).last_purge_hour == old(self).last_purge_hour,
    {
        if now_minute % WINDOW_MINUTES == 0 && now_minute != self.last_flush_minute {
            self.last_flush_minute = now_minute;
            true
        } else {
            false
        }
    }

    /// Whether old history is to be purged during a flush in `current_hour`:
    /// once per hour, when the hour has changed; the hour is recorded.
    pub fn take_purge(&mut self, current_hour: u32) -> (r: bool)
        ensures
            r == (current_hour != old(self).last_purge_hour),
            final(self).last_purge_hour == current_hour,
            final(self).last_flush_minute == old(self).last_flush_minute,
    {
        if current_hour != self.last_purge_hour {
            self.last_purge_hour = current_hour;
            true
        } else {
            false
        }
    }
}

/// Flushing happens only on five-minute boundaries, and at most once for a
/// given minute: right after a flush at a minute, the same minute is not due.
pub proof fn law_flush_once_per_boundary(last_flush_minute: u32, now_minute: u32)
    ensures
        spec_flush_due(last_flush_minute, now_minute) ==> now_minute % 5 == 0,
        !spec_flush_due(now_minute, now_minute),
{
}

/// The SQLite date modifier that reaches back `hours` hours, as in
/// `datetime('now', '-6 hours')`.
pub fn history_since_modifier(hours: u32) -> (r: String)
    ensures
        r@ == "-"@ + decimal(hours as nat) + " hours"@,
{
    let mut s = String::from_str("-");
    append_decimal(&mut s, hours);
    s.append(" hours");
    s
}

/// A flush is due exactly at the minutes on a five-minute boundary that
/// differ from the last flushed minute, whatever their order in the hour: in
/// particular the boundary at minute 0 is due after a flush at minute 55.
pub proof fn law_flush_due_exactly(last_flush_minute: u32, now_minute: u32)
    ensures
        spec_flush_due(last_flush_minute, now_minute) <==> (now_minute % 5 == 0 && now_minute
            != last_flush_minute),
        spec_flush_due(55, 0),
{
}

proof fn lemma_decimal_digits(n: nat)
    ensures
        decimal(n).len() > 0,
        all_digits(decimal(n)),
        digits_value(decimal(n)) == n,
        decimal(n)[0] == '0' ==> n == 0,
    decreases n,
{
    let d = (n % 10) as nat;
    assert((digit_char(d) as int) - ('0' as int) == d);
    assert(is_digit(digit_char(d)));
    if n >= 10 {
        lemma_decimal_digits(n / 10);
        let s = decimal(n);
        let prefix = decimal(n / 10);
        assert(s.drop_last() =~= prefix);
        assert(s.last() == digit_char(d));
        assert forall|i: int| 0 <= i < s.len() implies is_digit(s[i]) by {
            if i < prefix.len() {
                assert(s[i] == prefix[i]);
            }
        }
        assert(s[0] == prefix[0]);
        assert((n / 10) * 10 + n % 10 == n) by (nonlinear_arith);
        assert(digits_value(s) == digits_value(s.drop_last()) * 10 + ((s.last() as int) - ('0' as int)) as nat);
        assert(digits_value(s) == (n / 10) * 10 + d);
    } else {
        let s = decimal(n);
        assert(s.drop_last() =~= Seq::<char>::empty());
        assert(digits_value(s) == digits_value(s.drop_last()) * 10 + ((s.last() as int) - ('0' as int)) as nat);
        assert(n % 10 == n);
    }
}

/// Reading back a number: the decimal text of any 64-bit value reads as that
/// value, and the text has no leading zero.
pub proof fn law_parse_reads_decimal(n: u64)
    ensures
        spec_parse_u64(decimal(n as nat)) == Some(n),
        decimal(n as nat)[0] == '0' ==> n == 0,
{
    lemma_decimal_digits(n as nat);
    assert(unsigned_digits(decimal(n as nat)) == decimal(n as nat));
}

/// Text that is not an optional `+` followed by digits does not read as a
/// number: an empty text, a text with a character that is neither a digit
/// nor a leading `+`, or a lone `+`.
pub proof fn law_parse_rejects(s: Seq<char>, i: int)
    requires
        0 <= i < s.len(),
        !is_digit(s[i]),
        !(i == 0 && s[0] == '+' && s.len() > 1),
    ensures
        spec_parse_u64(s) is None,
        spec_parse_u64(Seq::<char>::empty()) is None,
{
    let digits = unsigned_digits(s);
    if s.len() > 0 && s[0] == '+' {
        if i > 0 {
            assert(digits[i - 1] == s[i]);
        }
    } else {
        assert(digits[i] == s[i]);
    }
}

/// A stored interval from 1000 to 10000 milliseconds, written in decimal, is
/// the interval the collector uses.
pub proof fn law_poll_interval_reads_setting(ms: u64)
    requires
        MIN_POLL_MS <= ms <= MAX_POLL_MS,
    ensures
        spec_poll_interval(Some(decimal(ms as nat))) == ms,
{
    law_parse_reads_decimal(ms);
}

/// The timing constants: poll every 2 s by default and between 1 s and
/// 10 s when set, reload the setting every minute, and keep history in
/// five-minute windows.
pub proof fn law_timing_constants()
    ensures
        DEFAULT_POLL_MS == 2000,
        MIN_POLL_MS == 1000,
        MAX_POLL_MS == 10000,
        INTERVAL_RELOAD_SECS == 60,
        WINDOW_MINUTES == 5,
        crate::alerts::RELOAD_INTERVAL_SECS == 60,
        crate::alerts::NANOS_PER_SEC == 1_000_000_000,
{
}

} // verus!
