//! Memory reports stamped with the current UTC time.

use vstd::prelude::*;
use crate::analysis::SystemInfo;

verus! {

/// The pattern of the timestamps: day/month/year hour:minute:second.
pub open spec fn timestamp_pattern() -> Seq<char> {
    "%d/%m/%Y %H:%M:%S"@
}

/// `c` is an ASCII digit.
pub open spec fn is_digit(c: char) -> bool {
    '0' <= c && c <= '9'
}

/// The number that two digits spell.
pub open spec fn two_digit_value(tens: char, ones: char) -> int {
    (tens as int - '0' as int) * 10 + (ones as int - '0' as int)
}

/// The characters of `s` at `at` and `at + 1` are digits that spell a number in `lo..=hi`.
pub open spec fn two_digits_within(s: Seq<char>, at: int, lo: int, hi: int) -> bool {
    &&& is_digit(s[at])
    &&& is_digit(s[at + 1])
    &&& lo <= two_digit_value(s[at], s[at + 1]) <= hi
}

/// `s` has the shape `DD/MM/YYYY hh:mm:ss`: a day 01–31, a month 01–12, a year of at least
/// four digits with an optional sign, an hour 00–23, a minute 00–59 and a second 00–60.
pub open spec fn day_time_shaped(s: Seq<char>) -> bool {
    let n = s.len() as int;
    &&& n >= 19
    &&& two_digits_within(s, 0, 1, 31)
    &&& s[2] == '/'
    &&& two_digits_within(s, 3, 1, 12)
    &&& s[5] == '/'
    &&& (is_digit(s[6]) || s[6] == '+' || s[6] == '-')
    &&& forall|i: int| 7 <= i < n - 9 ==> is_digit(#[trigger] s[i])
    &&& s[n - 9] == ' '
    &&& two_digits_within(s, n - 8, 0, 23)
    &&& s[n - 6] == ':'
    &&& two_digits_within(s, n - 5, 0, 59)
    &&& s[n - 3] == ':'
    &&& two_digits_within(s, n - 2, 0, 60)
}

/// The text that `chrono` renders for the instant `secs` seconds and `nanos` nanoseconds
/// after the Unix epoch, in the pattern `pattern`; `None` where chrono has no such instant.
pub uninterp spec fn utc_rendering(secs: i64, nanos: u32, pattern: Seq<char>) -> Option<Seq<char>>;

/// The last second that the year 9999 holds, counted from the Unix epoch.
pub open spec fn end_of_year_9999() -> int {
    253_402_300_799
}

/// Reads the system clock with `std::time::SystemTime::now()` and measures it from the Unix
/// epoch with `duration_since`, as whole seconds and the nanoseconds beyond them.
///
/// Claimed of std: the nanoseconds stay below one billion. Which instant is read, and whether
/// the clock is past the epoch (else `None`), is left unsaid: it is the time of the call.
#[verifier::external_body]
fn system_clock_since_epoch() -> (reading: Option<(u64, u32)>)
    ensures
        reading matches Some((secs, nanos)) ==> nanos < 1_000_000_000,
{
    match std::time::SystemTime::now().duration_since(std::time::UNIX_EPOCH) {
        Ok(elapsed) => Some((elapsed.as_secs(), elapsed.subsec_nanos())),
        Err(_) => None,
    }
}

/// Makes the UTC instant with `chrono::DateTime::from_timestamp(secs, nanos)` and renders it
/// with `DateTime::format(pattern)` and `to_string`.
///
/// Claimed of chrono: the outcome depends on the three arguments alone (it is named
/// `utc_rendering`); every instant from the epoch to the end of the year 9999 with fewer than
/// a billion nanoseconds exists; and, for the timestamp pattern, the text is a two-digit day,
/// `/`, a two-digit month, `/`, the year zero-padded to four digits (with a sign outside
/// 0–9999), a space, and two-digit hour, minute and second separated by `:` (the second
/// reaches 60 only on a leap second; see chrono's `format/formatting.rs`).
#[verifier::external_body]
fn render_utc(secs: i64, nanos: u32, pattern: &str) -> (stamp: Option<String>)
    requires
        pattern@ == timestamp_pattern(),
    ensures
        utc_rendering(secs, nanos, pattern@) == match stamp {
            Some(s) => Some(s@),
            None => None,
        },
        0 <= secs <= end_of_year_9999() && nanos < 1_000_000_000 ==> stamp is Some,
        stamp matches Some(s) ==> day_time_shaped(s@),
{
    chrono::DateTime::from_timestamp(secs, nanos).map(|t| t.format(pattern).to_string())
}

/// The memory figures of a reading, stamped with a time.
#[derive(Debug)]
pub struct MemInfo {
    pub total_ram: u64,
    pub free_ram: u64,
    pub used_ram: u64,
    pub timestamp: String,
}

/// The memory report of a reading taken at `timestamp`.
pub fn mem_info(system_info: &SystemInfo, timestamp: String) -> (info: MemInfo)
    ensures
        info.total_ram == system_info.total_ram,
        info.free_ram == system_info.free_ram,
        info.used_ram == system_info.used_ram,
        info.timestamp@ == timestamp@,
{
    MemInfo {
        total_ram: system_info.total_ram,
        free_ram: system_info.free_ram,
        used_ram: system_info.used_ram,
        timestamp,
    }
}

/// The memory report of a reading, stamped with the UTC time that a clock reading since the
/// Unix epoch (seconds, nanoseconds) stands for; `None` when there is no reading or chrono
/// cannot render it.
pub fn mem_info_at(system_info: &SystemInfo, reading: Option<(u64, u32)>) -> (info: Option<MemInfo>)
    ensures
        reading is None ==> info is None,
        reading matches Some((secs, nanos)) ==> {
            if secs > i64::MAX {
                info is None
            } else {
                match utc_rendering(secs as i64, nanos, timestamp_pattern()) {
                    None => info is None,
                    Some(t) => info matches Some(m) && m.total_ram == system_info.total_ram
                        && m.free_ram == system_info.free_ram && m.used_ram == system_info.used_ram
                        && m.timestamp@ == t,
                }
            }
        },
        reading matches Some((secs, nanos)) ==> (secs <= end_of_year_9999() && nanos < 1_000_000_000
            ==> info is Some),
        info matches Some(m) ==> day_time_shaped(m.timestamp@),
{
    match reading {
        None => None,
        Some((secs, nanos)) => {
            if secs > i64::MAX as u64 {
                return None;
            }
            match render_utc(secs as i64, nanos, "%d/%m/%Y %H:%M:%S") {
                Some(stamp) => Some(mem_info(system_info, stamp)),
                None => None,
            }
        },
    }
}

/// The memory report of a reading, stamped with the current UTC time as
/// `DD/MM/YYYY hh:mm:ss`; `None` when the clock reads before the Unix epoch or beyond what
/// chrono can render.
pub fn current_mem_info(system_info: &SystemInfo) -> (info: Option<MemInfo>)
    ensures
        info matches Some(m) ==> {
            &&& m.total_ram == system_info.total_ram
            &&& m.free_ram == system_info.free_ram
            &&& m.used_ram == system_info.used_ram
            &&& day_time_shaped(m.timestamp@)
        },
{
    mem_info_at(system_info, system_clock_since_epoch())
}

} // verus!
