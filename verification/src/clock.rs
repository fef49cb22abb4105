//! Logical clock: local time corrected by a server-supplied millisecond
//! offset.  All audit timestamps are logical, not wall-clock; the caller
//! reads the system clock and passes the reading in as a plain value.
//!
//! This module also renders timestamps: record ids
//! (`<logical-ms>-<sequence>`) and `YYYY-MM-DD HH:MM:SS` date-time
//! strings, with the digit strings fully specified.

use vstd::prelude::*;
use vstd::string::StringExecFns;

use chrono::{Datelike, Local, TimeZone, Timelike};

use crate::text::{
    spec_dec_digits, spec_dec_signed, spec_ascii_chars, dec_u64, dec_i64, ascii_to_string,
    append_bytes, lemma_dec_digit_range,
};

verus! {

/// Tracks a signed millisecond offset between local and server time.
pub struct LogicalClock {
    pub offset_ms: i64,
}

/// The clock value that results from calibrating against server time
/// `server_time_ms` observed at local time `local_now_ms`.
pub open spec fn spec_calibrated(server_time_ms: i64, local_now_ms: i64) -> LogicalClock {
    LogicalClock { offset_ms: (server_time_ms - local_now_ms) as i64 }
}

impl LogicalClock {
    /// The logical reading of this clock at local time `local_now_ms`.
    pub open spec fn spec_now(&self, local_now_ms: int) -> int {
        local_now_ms + self.offset_ms
    }

    pub fn new() -> (c: Self)
        ensures
            c.offset_ms == 0,
    {
        LogicalClock { offset_ms: 0 }
    }

    /// Replace the offset so that the clock reads `server_time_ms` at
    /// local time `local_now_ms`.  A later call replaces the offset
    /// outright; offsets never accumulate.
    pub fn update_offset(&mut self, server_time_ms: i64, local_now_ms: i64)
        requires
            i64::MIN <= server_time_ms - local_now_ms <= i64::MAX,
        ensures
            *final(self) == spec_calibrated(server_time_ms, local_now_ms),
    {
        self.offset_ms = server_time_ms - local_now_ms;
    }

    /// Current logical time in milliseconds, given the local reading.
    pub fn now_ms(&self, local_now_ms: i64) -> (t: i64)
        requires
            i64::MIN <= local_now_ms + self.offset_ms <= i64::MAX,
        ensures
            t == self.spec_now(local_now_ms as int),
    {
        local_now_ms + self.offset_ms
    }

    /// The logical time rendered for logging.
    pub fn now_str(&self, local_now_ms: i64) -> (r: String)
        requires
            i64::MIN <= local_now_ms + self.offset_ms <= i64::MAX,
        ensures
            r@ == "Timestamp: "@ + spec_ascii_chars(
                spec_dec_signed(self.spec_now(local_now_ms as int)),
            ),
    {
        let t = self.now_ms(local_now_ms);
        let digits = dec_i64(t);
        proof {
            lemma_dec_signed_ascii(t as int);
        }
        let num = ascii_to_string(digits);
        let mut r = String::from_str("Timestamp: ");
        r.append(num.as_str());
        r
    }
}

/// Clock-offset law: calibrating against server time `s` at local time
/// `t` makes the clock read exactly `s` at local time `t`, and a second
/// calibration replaces the first outright — the result is independent
/// of any earlier offset.
pub proof fn lemma_clock_calibration(s1: i64, t1: i64, s2: i64, t2: i64)
    requires
        i64::MIN <= s1 - t1 <= i64::MAX,
        i64::MIN <= s2 - t2 <= i64::MAX,
    ensures
        spec_calibrated(s1, t1).spec_now(t1 as int) == s1,
        spec_calibrated(s2, t2).offset_ms == s2 - t2,
{
}

// ---------------------------------------------------------------------
// Record ids
// ---------------------------------------------------------------------

/// The id string for a record: logical milliseconds, a dash, and the
/// process-local sequence number.  Ids are unique per device, process
/// and sequence, and monotonic in the sequence.
pub open spec fn spec_log_id(now_ms: int, counter: nat) -> Seq<u8> {
    spec_dec_signed(now_ms) + seq![45u8] + spec_dec_digits(counter)
}

proof fn lemma_dec_signed_ascii(n: int)
    ensures
        forall|i: int|
            0 <= i < spec_dec_signed(n).len() ==> #[trigger] spec_dec_signed(n)[i] < 128,
{
    if n < 0 {
        lemma_dec_digit_range((-n) as nat);
    } else {
        lemma_dec_digit_range(n as nat);
    }
}

proof fn lemma_dec_digits_injective(a: nat, b: nat)
    requires
        spec_dec_digits(a) == spec_dec_digits(b),
    ensures
        a == b,
    decreases a,
{
    let da = spec_dec_digits(a);
    let db = spec_dec_digits(b);
    lemma_dec_digit_range(a);
    lemma_dec_digit_range(b);
    if a < 10 && b < 10 {
        assert(da[0] == db[0]);
    } else if a >= 10 && b >= 10 {
        assert(da.last() == db.last());
        assert(a % 10 == b % 10);
        assert(da.drop_last() =~= spec_dec_digits(a / 10));
        assert(db.drop_last() =~= spec_dec_digits(b / 10));
        lemma_dec_digits_injective(a / 10, b / 10);
    } else {
        // one has a single digit, the other at least two
        if a >= 10 {
            lemma_dec_digit_range(a / 10);
            assert(da.len() >= 2);
        } else {
            lemma_dec_digit_range(b / 10);
            assert(db.len() >= 2);
        }
        assert(da.len() != db.len());
    }
}

proof fn lemma_dec_signed_shape(n: int)
    ensures
        spec_dec_signed(n).len() >= 1,
        forall|i: int| 1 <= i < spec_dec_signed(n).len() ==> #[trigger] spec_dec_signed(n)[i] != 45,
        n >= 0 ==> spec_dec_signed(n)[0] != 45,
{
    if n < 0 {
        lemma_dec_digit_range((-n) as nat);
    } else {
        lemma_dec_digit_range(n as nat);
    }
}

proof fn lemma_dec_signed_injective(x: int, y: int)
    requires
        spec_dec_signed(x) == spec_dec_signed(y),
    ensures
        x == y,
{
    lemma_dec_signed_shape(x);
    lemma_dec_signed_shape(y);
    if x >= 0 && y >= 0 {
        lemma_dec_digits_injective(x as nat, y as nat);
    } else if x < 0 && y < 0 {
        assert(spec_dec_signed(x).drop_first() =~= spec_dec_digits((-x) as nat));
        assert(spec_dec_signed(y).drop_first() =~= spec_dec_digits((-y) as nat));
        lemma_dec_digits_injective((-x) as nat, (-y) as nat);
    } else {
        // a negative rendering starts with the minus sign, a
        // non-negative one with a digit
        assert(spec_dec_signed(x)[0] == spec_dec_signed(y)[0]);
        if x < 0 {
            assert(spec_dec_signed(x)[0] == 45);
        } else {
            assert(spec_dec_signed(y)[0] == 45);
        }
    }
}

/// Record-id law: the id encoding is injective — records created at
/// different logical times or with different sequence numbers never
/// share an id — so an id is unique per device and process, and the
/// server can deduplicate at-least-once deliveries by it.
pub proof fn lemma_log_id_unique(t1: int, c1: nat, t2: int, c2: nat)
    requires
        spec_log_id(t1, c1) == spec_log_id(t2, c2),
    ensures
        t1 == t2,
        c1 == c2,
{
    let id = spec_log_id(t1, c1);
    let s1 = spec_dec_signed(t1);
    let s2 = spec_dec_signed(t2);
    let d1 = spec_dec_digits(c1);
    let d2 = spec_dec_digits(c2);
    lemma_dec_signed_shape(t1);
    lemma_dec_signed_shape(t2);
    lemma_dec_digit_range(c1);
    lemma_dec_digit_range(c2);
    // the dash after the time part is the last dash of the id, so both
    // time parts have the same length
    if s1.len() < s2.len() {
        assert(id[s1.len() as int] == 45);
        assert(spec_log_id(t2, c2)[s1.len() as int] == s2[s1.len() as int]);
        assert(s2[s1.len() as int] != 45);
    }
    if s2.len() < s1.len() {
        assert(id[s2.len() as int] == 45);
        assert(spec_log_id(t1, c1)[s2.len() as int] == s1[s2.len() as int]);
        assert(s1[s2.len() as int] != 45);
    }
    assert(s1.len() == s2.len());
    assert forall|i: int| 0 <= i < s1.len() implies s1[i] == s2[i] by {
        assert(spec_log_id(t1, c1)[i] == s1[i]);
        assert(spec_log_id(t2, c2)[i] == s2[i]);
    }
    assert(s1 =~= s2);
    assert(spec_log_id(t1, c1).len() == s1.len() + 1 + d1.len());
    assert(spec_log_id(t2, c2).len() == s2.len() + 1 + d2.len());
    assert(d1.len() == d2.len());
    assert forall|j: int| 0 <= j < d1.len() implies d1[j] == d2[j] by {
        assert(spec_log_id(t1, c1)[s1.len() + 1 + j] == d1[j]);
        assert(spec_log_id(t2, c2)[s2.len() + 1 + j] == d2[j]);
    }
    assert(d1 =~= d2);
    lemma_dec_signed_injective(t1, t2);
    lemma_dec_digits_injective(c1, c2);
}

/// Build the next record id from the logical time and the sequence
/// counter.
pub fn next_log_id(now_ms: i64, counter: u64) -> (r: String)
    ensures
        r@ == spec_ascii_chars(spec_log_id(now_ms as int, counter as nat)),
{
    let mut v = dec_i64(now_ms);
    v.push(45);
    let digits = dec_u64(counter);
    append_bytes(&mut v, digits.as_slice());
    proof {
        lemma_dec_signed_ascii(now_ms as int);
        lemma_dec_digit_range(counter as nat);
        assert(v@ =~= spec_log_id(now_ms as int, counter as nat));
    }
    ascii_to_string(v)
}

// ---------------------------------------------------------------------
// Date-time rendering
// ---------------------------------------------------------------------

/// A number zero-padded to two digits (longer numbers keep all their
/// digits).
pub open spec fn spec_pad2(n: nat) -> Seq<u8> {
    if n < 10 {
        seq![48u8] + spec_dec_digits(n)
    } else {
        spec_dec_digits(n)
    }
}

/// A year zero-padded to four digits; negative years keep a leading
/// minus sign and longer years keep all their digits.
pub open spec fn spec_pad4(y: int) -> Seq<u8> {
    if y < 0 {
        seq![45u8] + spec_dec_digits((-y) as nat)
    } else if y < 10 {
        seq![48u8, 48u8, 48u8] + spec_dec_digits(y as nat)
    } else if y < 100 {
        seq![48u8, 48u8] + spec_dec_digits(y as nat)
    } else if y < 1000 {
        seq![48u8] + spec_dec_digits(y as nat)
    } else {
        spec_dec_digits(y as nat)
    }
}

/// `YYYY-MM-DD HH:MM:SS`.
pub open spec fn spec_datetime_bytes(y: int, mo: nat, d: nat, h: nat, mi: nat, s: nat) -> Seq<
    u8,
> {
    spec_pad4(y) + seq![45u8] + spec_pad2(mo) + seq![45u8] + spec_pad2(d) + seq![32u8] + spec_pad2(
        h,
    ) + seq![58u8] + spec_pad2(mi) + seq![58u8] + spec_pad2(s)
}

proof fn lemma_pad2_ascii(n: nat)
    ensures
        forall|i: int| 0 <= i < spec_pad2(n).len() ==> #[trigger] spec_pad2(n)[i] < 128,
{
    lemma_dec_digit_range(n);
}

proof fn lemma_pad4_ascii(y: int)
    ensures
        forall|i: int| 0 <= i < spec_pad4(y).len() ==> #[trigger] spec_pad4(y)[i] < 128,
{
    if y < 0 {
        lemma_dec_digit_range((-y) as nat);
    } else {
        lemma_dec_digit_range(y as nat);
    }
}

fn pad2_bytes(n: u32) -> (r: Vec<u8>)
    ensures
        r@ == spec_pad2(n as nat),
{
    if n < 10 {
        let mut v: Vec<u8> = Vec::new();
        v.push(48);
        let digits = dec_u64(n as u64);
        append_bytes(&mut v, digits.as_slice());
        proof {
            assert(v@ =~= spec_pad2(n as nat));
        }
        v
    } else {
        dec_u64(n as u64)
    }
}

fn pad4_bytes(y: i32) -> (r: Vec<u8>)
    ensures
        r@ == spec_pad4(y as int),
{
    if y < 0 {
        dec_i64(y as i64)
    } else {
        let mut v: Vec<u8> = Vec::new();
        if y < 10 {
            v.push(48);
            v.push(48);
            v.push(48);
        } else if y < 100 {
            v.push(48);
            v.push(48);
        } else if y < 1000 {
            v.push(48);
        }
        let digits = dec_u64(y as u64);
        append_bytes(&mut v, digits.as_slice());
        proof {
            assert(v@ =~= spec_pad4(y as int));
        }
        v
    }
}

/// Render calendar parts as `YYYY-MM-DD HH:MM:SS`.
pub fn format_datetime(y: i32, mo: u32, d: u32, h: u32, mi: u32, s: u32) -> (r: String)
    ensures
        r@ == spec_ascii_chars(
            spec_datetime_bytes(y as int, mo as nat, d as nat, h as nat, mi as nat, s as nat),
        ),
{
    let mut v = pad4_bytes(y);
    v.push(45);
    let p_mo = pad2_bytes(mo);
    append_bytes(&mut v, p_mo.as_slice());
    v.push(45);
    let p_d = pad2_bytes(d);
    append_bytes(&mut v, p_d.as_slice());
    v.push(32);
    let p_h = pad2_bytes(h);
    append_bytes(&mut v, p_h.as_slice());
    v.push(58);
    let p_mi = pad2_bytes(mi);
    append_bytes(&mut v, p_mi.as_slice());
    v.push(58);
    let p_s = pad2_bytes(s);
    append_bytes(&mut v, p_s.as_slice());
    proof {
        assert(v@ =~= spec_datetime_bytes(
            y as int,
            mo as nat,
            d as nat,
            h as nat,
            mi as nat,
            s as nat,
        ));
        lemma_pad4_ascii(y as int);
        lemma_pad2_ascii(mo as nat);
        lemma_pad2_ascii(d as nat);
        lemma_pad2_ascii(h as nat);
        lemma_pad2_ascii(mi as nat);
        lemma_pad2_ascii(s as nat);
    }
    ascii_to_string(v)
}

/// Relies on chrono's `TimeZone::timestamp_opt` for the local zone
/// (falling back to the epoch, an infallible conversion, for seconds
/// out of chrono's range) and the `Datelike`/`Timelike` accessors:
/// month is 1–12, day is 1–31, hour is 0–23, minute and second are
/// 0–59.  The local calendar depends on the machine's time zone, so
/// nothing more is promised of the values.
#[verifier::external_body]
fn local_time_parts(secs: i64) -> (r: (i32, u32, u32, u32, u32, u32))
    ensures
        1 <= r.1 <= 12,
        1 <= r.2 <= 31,
        r.3 <= 23,
        r.4 <= 59,
        r.5 <= 59,
{
    let dt = Local
        .timestamp_opt(secs, 0)
        .single()
        .unwrap_or_else(|| chrono::DateTime::from(std::time::UNIX_EPOCH));
    (dt.year(), dt.month(), dt.day(), dt.hour(), dt.minute(), dt.second())
}

/// Render a logical timestamp (seconds) as a local-calendar
/// `YYYY-MM-DD HH:MM:SS` string.  The calendar split depends on the
/// machine's time zone; whatever it is, the rendering of the parts is
/// exact and the parts are in calendar range.
pub fn format_logical_time(timestamp_secs: i64) -> (r: String)
    ensures
        exists|y: int, mo: nat, d: nat, h: nat, mi: nat, s: nat|
            1 <= mo <= 12 && 1 <= d <= 31 && h <= 23 && mi <= 59 && s <= 59 && r@
                == spec_ascii_chars(#[trigger] spec_datetime_bytes(y, mo, d, h, mi, s)),
{
    let (y, mo, d, h, mi, s) = local_time_parts(timestamp_secs);
    let r = format_datetime(y, mo, d, h, mi, s);
    proof {
        assert(1 <= mo as nat <= 12 && 1 <= d as nat <= 31 && h as nat <= 23 && mi as nat <= 59
            && s as nat <= 59 && r@ == spec_ascii_chars(
            spec_datetime_bytes(y as int, mo as nat, d as nat, h as nat, mi as nat, s as nat),
        ));
    }
    r
}

} // verus!
