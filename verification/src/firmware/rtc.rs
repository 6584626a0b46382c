//! DS3231 real-time clock: register encoding and decoding, and the calendar
//! arithmetic that turns its date registers into Unix time.
//!
//! The worker that owns the I2C bus reads the status byte and the seven time
//! registers and hands them to [`rtc_unix`]; to persist the system clock it
//! breaks the Unix time down in UTC and writes the bytes [`rtc_time_frame`]
//! produces, then clears the oscillator-stop flag with [`clear_osf`].

use vstd::prelude::*;

use crate::firmware::alarm::VALID_AFTER;

verus! {

/// DS3231 I2C address.
pub const ADDR: u8 = 0x68;

/// First time register (seconds); the seven registers from here are
/// seconds, minutes, hours, day-of-week, date, month, year, all BCD.
pub const REG_SECONDS: u8 = 0x00;

/// Status register; bit 7 is OSF (oscillator stopped since last power-up).
pub const REG_STATUS: u8 = 0x0F;

/// How often (ms) the system clock is written back to the RTC.
pub const PERSIST_EVERY_MS: u64 = 3_600_000;

/// Value of a packed BCD byte: high nibble tens, low nibble units.
pub open spec fn bcd_value(b: u8) -> int {
    (b as int / 16) * 10 + (b as int % 16)
}

/// The packed BCD byte `dec_to_bcd` produces: tens shifted into the high
/// nibble (bits beyond the byte are lost), units in the low nibble.
pub open spec fn bcd_byte(d: u8) -> int {
    ((d as int / 10) * 16) % 256 + d as int % 10
}

/// Decodes one packed BCD byte.
pub fn bcd_to_dec(b: u8) -> (d: u8)
    ensures
        d == bcd_value(b),
{
    assert((b >> 4u8) == b / 16 && (b & 0x0Fu8) == b % 16) by (bit_vector);
    (b >> 4) * 10 + (b & 0x0F)
}

/// Encodes a number as one packed BCD byte.
pub fn dec_to_bcd(d: u8) -> (b: u8)
    ensures
        b == bcd_byte(d),
{
    let t = d / 10;
    let u = d % 10;
    assert(((t << 4u8) | u) == ((t as int * 16) % 256 + u as int) as u8) by (bit_vector)
        requires
            u < 10,
    ;
    (t << 4) | u
}

/// Division rounding toward zero, as Rust's `/` on signed integers.
pub open spec fn div_trunc(a: int, b: int) -> int {
    if a >= 0 {
        a / b
    } else {
        -((-a) / b)
    }
}

/// Days since 1970-01-01 of the proleptic-Gregorian date `y-m-d`, by the
/// era/day-of-era decomposition (years start in March so that February,
/// the variable month, comes last). Out-of-range months and days are not
/// rejected; they extend the arithmetic.
pub open spec fn days_from_civil_spec(y: int, m: int, d: int) -> int {
    let y2 = if m <= 2 {
        y - 1
    } else {
        y
    };
    let era = y2 / 400;
    let yoe = y2 - era * 400;
    let mp = if m > 2 {
        m - 3
    } else {
        m + 9
    };
    let doy = div_trunc(153 * mp + 2, 5) + d - 1;
    let doe = yoe * 365 + yoe / 4 - yoe / 100 + doy;
    era * 146097 + doe - 719468
}

/// Whether `x` is representable as an `i64`.
pub open spec fn in_i64(x: int) -> bool {
    i64::MIN <= x <= i64::MAX
}

/// Whether every intermediate value of the `i64` computation of
/// [`days_from_civil_spec`] is representable, in the order Rust evaluates
/// them (so that no operation overflows).
pub open spec fn days_from_civil_fits(y: int, m: int, d: int) -> bool {
    let y2 = if m <= 2 {
        y - 1
    } else {
        y
    };
    let era = y2 / 400;
    let yoe = y2 - era * 400;
    let mp = if m > 2 {
        m - 3
    } else {
        m + 9
    };
    let doy = div_trunc(153 * mp + 2, 5) + d - 1;
    let doe = yoe * 365 + yoe / 4 - yoe / 100 + doy;
    &&& in_i64(y2)
    &&& (y2 < 0 ==> in_i64(y2 - 399))
    &&& in_i64(era * 400)
    &&& in_i64(mp)
    &&& in_i64(153 * mp)
    &&& in_i64(153 * mp + 2)
    &&& in_i64(div_trunc(153 * mp + 2, 5) + d)
    &&& in_i64(doy)
    &&& in_i64(doe)
    &&& in_i64(era * 146097)
    &&& in_i64(era * 146097 + doe)
    &&& in_i64(era * 146097 + doe - 719468)
}

/// Days since the Unix epoch for a proleptic-Gregorian date; `m` is 1..=12.
/// Defined for every input on which the `i64` arithmetic does not overflow.
pub fn days_from_civil(y: i64, m: i64, d: i64) -> (r: i64)
    requires
        days_from_civil_fits(y as int, m as int, d as int),
    ensures
        r == days_from_civil_spec(y as int, m as int, d as int),
{
    let y = if m <= 2 {
        y - 1
    } else {
        y
    };
    let era = (if y >= 0 {
        y
    } else {
        y - 399
    }) / 400;
    assert(era == y / 400);
    let yoe = y - era * 400;
    let mp = if m > 2 {
        m - 3
    } else {
        m + 9
    };
    let doy = (153 * mp + 2) / 5 + d - 1;
    let doe = yoe * 365 + yoe / 4 - yoe / 100 + doy;
    era * 146097 + doe - 719468
}

/// Gregorian leap years.
pub open spec fn is_leap(y: int) -> bool {
    (y % 4 == 0 && y % 100 != 0) || y % 400 == 0
}

/// Length of month `m` (1..=12) of year `y`.
pub open spec fn month_len(y: int, m: int) -> int {
    if m == 2 {
        if is_leap(y) {
            29
        } else {
            28
        }
    } else if m == 4 || m == 6 || m == 9 || m == 11 {
        30
    } else {
        31
    }
}

/// 1970-01-01 is day zero.
pub proof fn lemma_days_epoch()
    ensures
        days_from_civil_spec(1970, 1, 1) == 0,
{
}

/// Consecutive days of a month are consecutive day numbers.
pub proof fn lemma_days_next_day(y: int, m: int, d: int)
    ensures
        days_from_civil_spec(y, m, d + 1) == days_from_civil_spec(y, m, d) + 1,
{
}

proof fn lemma_era_step(y: int)
    ensures
        ({
            let ea = (y - 1) / 400;
            let eb = y / 400;
            let ra = (y - 1) - ea * 400;
            let rb = y - eb * 400;
            &&& 0 <= rb < 400
            &&& rb == 0 ==> ea == eb - 1 && ra == 399
            &&& rb != 0 ==> ea == eb && ra == rb - 1
        }),
{
    let eb = y / 400;
    let rb = y % 400;
    assert(y == eb * 400 + rb);
    if rb == 0 {
        assert((y - 1) / 400 == eb - 1) by (nonlinear_arith)
            requires
                y == eb * 400,
        ;
    } else {
        assert((y - 1) / 400 == eb) by (nonlinear_arith)
            requires
                y == eb * 400 + rb,
                1 <= rb < 400,
        ;
    }
}

proof fn lemma_leap_by_era_offset(y: int, eb: int, rb: int)
    requires
        y == eb * 400 + rb,
        0 <= rb < 400,
    ensures
        is_leap(y) == ((rb % 4 == 0 && rb % 100 != 0) || rb == 0),
{
    assert(y % 4 == rb % 4) by (nonlinear_arith)
        requires
            y == eb * 400 + rb,
    ;
    assert(y % 100 == rb % 100) by (nonlinear_arith)
        requires
            y == eb * 400 + rb,
    ;
    assert(y % 400 == rb) by (nonlinear_arith)
        requires
            y == eb * 400 + rb,
            0 <= rb < 400,
    ;
}

proof fn lemma_step_quot(r: int)
    requires
        1 <= r < 400,
    ensures
        r / 4 - (r - 1) / 4 == (if r % 4 == 0 {
            1int
        } else {
            0
        }),
        r / 100 - (r - 1) / 100 == (if r % 100 == 0 {
            1int
        } else {
            0
        }),
{
}

/// March 1st follows February's 28 days, or 29 in a leap year.
proof fn lemma_days_march(y: int)
    ensures
        days_from_civil_spec(y, 3, 1) == days_from_civil_spec(y, 2, 1) + month_len(y, 2),
{
    let ea = (y - 1) / 400;
    let eb = y / 400;
    let ra = (y - 1) - ea * 400;
    let rb = y - eb * 400;
    lemma_era_step(y);
    lemma_leap_by_era_offset(y, eb, rb);
    assert(days_from_civil_spec(y, 2, 1) == ea * 146097 + ra * 365 + ra / 4 - ra / 100 + 337
        - 719468);
    assert(days_from_civil_spec(y, 3, 1) == eb * 146097 + rb * 365 + rb / 4 - rb / 100
        - 719468);
    if rb != 0 {
        lemma_step_quot(rb);
    }
}

/// The first of the next month comes `month_len(y, m)` days after the first
/// of month `m`, leap years included.
pub proof fn lemma_days_next_month(y: int, m: int)
    requires
        1 <= m <= 11,
    ensures
        days_from_civil_spec(y, m + 1, 1) == days_from_civil_spec(y, m, 1) + month_len(y, m),
{
    if m == 2 {
        lemma_days_march(y);
    }
}

/// New Year's Day follows December 31st.
pub proof fn lemma_days_next_year(y: int)
    ensures
        days_from_civil_spec(y + 1, 1, 1) == days_from_civil_spec(y, 12, 31) + 1,
{
}

/// Unix time the DS3231 registers hold, or `None` when the oscillator-stop
/// flag is set (lost power or never programmed) or the value is implausibly
/// early. Registers are seconds, minutes, hours (24-hour mode), day of week,
/// date, month (century bit ignored) and year since 2000.
pub open spec fn rtc_unix_spec(status: u8, r: Seq<u8>) -> Option<i64> {
    if status & 0x80 != 0 {
        None
    } else {
        let sec = bcd_value(r[0] & 0x7F);
        let min = bcd_value(r[1] & 0x7F);
        let hour = bcd_value(r[2] & 0x3F);
        let date = bcd_value(r[4] & 0x3F);
        let month = bcd_value(r[5] & 0x1F);
        let year = 2000 + bcd_value(r[6]);
        let unix = days_from_civil_spec(year, month, date) * 86400 + hour * 3600 + min * 60 + sec;
        if unix >= VALID_AFTER {
            Some(unix as i64)
        } else {
            None
        }
    }
}

/// Reads the RTC registers as Unix seconds (UTC).
pub fn rtc_unix(status: u8, r: [u8; 7]) -> (t: Option<i64>)
    ensures
        t == rtc_unix_spec(status, r@),
{
    if status & 0x80 != 0 {
        return None;
    }
    let sec = bcd_to_dec(r[0] & 0x7F) as i64;
    let min = bcd_to_dec(r[1] & 0x7F) as i64;
    let hour = bcd_to_dec(r[2] & 0x3F) as i64;
    let date = bcd_to_dec(r[4] & 0x3F) as i64;
    let month = bcd_to_dec(r[5] & 0x1F) as i64;
    let year = 2000 + bcd_to_dec(r[6]) as i64;
    let days = days_from_civil(year, month, date);
    assert(-800000 <= days <= 800000) by {
        lemma_days_small(year as int, month as int, date as int);
    }
    let unix = days * 86400 + hour * 3600 + min * 60 + sec;
    if unix >= VALID_AFTER {
        Some(unix)
    } else {
        None
    }
}

proof fn lemma_days_small(y: int, m: int, d: int)
    requires
        2000 <= y <= 2165,
        0 <= m <= 165,
        0 <= d <= 165,
    ensures
        -800000 <= days_from_civil_spec(y, m, d) <= 800000,
{
}

/// The bytes that program the time registers: the register address, then
/// seconds, minutes, hours (24-hour mode), day of week (always 1; unused),
/// date, month and year since 2000, each BCD. Fields come from a UTC
/// broken-down time (`tm_mon` counts from 0, `tm_year` from 1900) and are
/// narrowed to a byte as `as u8` does.
pub open spec fn rtc_time_frame_spec(sec: i32, min: i32, hour: i32, mday: i32, mon: i32, year: i32) -> Seq<u8> {
    seq![
        REG_SECONDS,
        bcd_byte(sec as u8) as u8,
        bcd_byte(min as u8) as u8,
        bcd_byte(hour as u8) as u8,
        1u8,
        bcd_byte(mday as u8) as u8,
        bcd_byte((mon + 1) as u8) as u8,
        bcd_byte((year - 100) as u8) as u8,
    ]
}

/// Builds the register write that stores a broken-down UTC time.
pub fn rtc_time_frame(sec: i32, min: i32, hour: i32, mday: i32, mon: i32, year: i32) -> (f: Vec<u8>)
    requires
        mon < i32::MAX,
        year >= i32::MIN + 100,
    ensures
        f@ == rtc_time_frame_spec(sec, min, hour, mday, mon, year),
{
    let mut f: Vec<u8> = Vec::new();
    f.push(REG_SECONDS);
    f.push(dec_to_bcd(sec as u8));
    f.push(dec_to_bcd(min as u8));
    f.push(dec_to_bcd(hour as u8));
    f.push(1);
    f.push(dec_to_bcd(mday as u8));
    f.push(dec_to_bcd((mon + 1) as u8));
    f.push(dec_to_bcd((year - 100) as u8));
    assert(f@ =~= rtc_time_frame_spec(sec, min, hour, mday, mon, year));
    f
}

/// The status byte with the oscillator-stop flag cleared.
pub fn clear_osf(status: u8) -> (s: u8)
    ensures
        s == status & 0x7F,
        s & 0x80 == 0,
{
    assert((status & 0x7Fu8) & 0x80u8 == 0) by (bit_vector);
    status & 0x7F
}

/// Whether the system clock should be written to the RTC now: only once the
/// clock holds a plausible time, then at start and every hour after the last
/// successful write.
pub open spec fn persist_due_spec(sys_unix: i64, last_ms: Option<u64>, now_ms: u64) -> bool {
    sys_unix >= VALID_AFTER && match last_ms {
        None => true,
        Some(t) => now_ms >= t && now_ms - t >= PERSIST_EVERY_MS,
    }
}

/// Decides whether the RTC worker writes the system clock back this tick.
pub fn persist_due(sys_unix: i64, last_ms: Option<u64>, now_ms: u64) -> (due: bool)
    ensures
        due == persist_due_spec(sys_unix, last_ms, now_ms),
{
    if sys_unix < VALID_AFTER {
        return false;
    }
    match last_ms {
        None => true,
        Some(t) => now_ms >= t && now_ms - t >= PERSIST_EVERY_MS,
    }
}

proof fn lemma_bcd_round_trip(v: u8, mask: u8)
    requires
        v < 100,
        mask == 0xFF || (mask == 0x7F && v < 80) || (mask == 0x3F && v < 40) || (mask == 0x1F
            && v < 20),
    ensures
        bcd_value((bcd_byte(v) as u8) & mask) == v,
{
    let b = bcd_byte(v) as u8;
    assert(b as int == (v as int / 10) * 16 + v as int % 10);
    assert(b & mask == b) by (bit_vector)
        requires
            b == ((v / 10) * 16 + v % 10) as u8,
            v < 100,
            mask == 0xFF || (mask == 0x7F && v < 80) || (mask == 0x3F && v < 40) || (mask
                == 0x1F && v < 20),
    ;
}

/// What a read gives back of a write: programming the registers from a UTC
/// broken-down time of the years 2000..=2099 and clearing the stop flag, then
/// reading them back, yields that time's Unix seconds (when it is plausible).
pub proof fn lemma_rtc_write_read(
    status: u8,
    sec: i32,
    min: i32,
    hour: i32,
    mday: i32,
    mon: i32,
    year: i32,
)
    requires
        0 <= sec < 60,
        0 <= min < 60,
        0 <= hour < 24,
        1 <= mday <= 31,
        0 <= mon <= 11,
        100 <= year <= 199,
    ensures
        ({
            let f = rtc_time_frame_spec(sec, min, hour, mday, mon, year);
            let unix = days_from_civil_spec(1900 + year, mon + 1, mday as int) * 86400 + hour
                * 3600 + min * 60 + sec;
            rtc_unix_spec(status & 0x7F, f.subrange(1, 8)) == if unix >= VALID_AFTER {
                Some(unix as i64)
            } else {
                None
            }
        }),
{
    let f = rtc_time_frame_spec(sec, min, hour, mday, mon, year);
    let r = f.subrange(1, 8);
    assert((status & 0x7Fu8) & 0x80u8 == 0) by (bit_vector);
    lemma_bcd_round_trip(sec as u8, 0x7F);
    lemma_bcd_round_trip(min as u8, 0x7F);
    lemma_bcd_round_trip(hour as u8, 0x3F);
    lemma_bcd_round_trip(mday as u8, 0x3F);
    lemma_bcd_round_trip((mon + 1) as u8, 0x1F);
    lemma_bcd_round_trip((year - 100) as u8, 0xFF);
    assert(r[0] == bcd_byte(sec as u8) as u8);
    assert(r[6] == bcd_byte((year - 100) as u8) as u8);
    assert((bcd_byte((year - 100) as u8) as u8) & 0xFF == bcd_byte((year - 100) as u8) as u8)
        by (bit_vector);
}

/// Encoding then decoding a BCD byte gives the number back, for 0..=99.
pub proof fn lemma_bcd_decode_encode(v: u8)
    requires
        v < 100,
    ensures
        bcd_value(bcd_byte(v) as u8) == v,
{
}

/// The RTC write-back schedule: never before the clock holds a plausible
/// time (Unix 1_700_000_000 or later); with such a time, at once when
/// nothing was written yet, and otherwise exactly when at least an hour
/// (3_600_000 ms) has passed since the last write. Once due, it stays due as
/// time goes on until the next write.
pub proof fn lemma_persist_schedule(sys_unix: i64, t: u64, now_ms: u64, later_ms: u64)
    ensures
        sys_unix < 1_700_000_000 ==> !persist_due_spec(sys_unix, None, now_ms) && !persist_due_spec(
            sys_unix,
            Some(t),
            now_ms,
        ),
        sys_unix >= 1_700_000_000 ==> persist_due_spec(sys_unix, None, now_ms),
        sys_unix >= 1_700_000_000 ==> (persist_due_spec(sys_unix, Some(t), now_ms) <==> now_ms
            >= t + 3_600_000),
        persist_due_spec(sys_unix, Some(t), now_ms) && now_ms <= later_ms ==> persist_due_spec(
            sys_unix,
            Some(t),
            later_ms,
        ),
{
}

} // verus!
