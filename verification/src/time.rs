//! Points in time, random identifiers, the clock, and the integers that stand
//! for floats.

use vstd::prelude::*;

verus! {

/// A point in time in UTC: whole seconds since the Unix epoch and the
/// nanoseconds within that second (a leap second carries nanoseconds from
/// 1_000_000_000 on).
#[derive(Debug, Clone, Copy, PartialEq, Eq, Hash, Structural)]
pub struct Timestamp {
    pub secs: i64,
    pub nanos: u32,
}

/// Whether `a` comes strictly before `b`.
pub open spec fn ts_before(a: Timestamp, b: Timestamp) -> bool {
    a.secs < b.secs || (a.secs == b.secs && a.nanos < b.nanos)
}

impl Timestamp {
    /// Whether `self` comes strictly before `other`.
    pub fn is_before(&self, other: &Timestamp) -> (r: bool)
        ensures
            r == ts_before(*self, *other),
    {
        self.secs < other.secs || (self.secs == other.secs && self.nanos < other.nanos)
    }
}

#[verifier::external_type_specification]
#[verifier::external_body]
pub struct ExSystemTime(std::time::SystemTime);

/// Reads the system clock with `std::time::SystemTime::now`. Trusted: the
/// reading is whatever the clock reports, so nothing is stated of it; std
/// documents no panic.
#[verifier::external_body]
fn system_time_now() -> (t: std::time::SystemTime) {
    std::time::SystemTime::now()
}

/// Measures a clock reading from the Unix epoch with
/// `SystemTime::duration_since(UNIX_EPOCH)`: `Ok` with the time after the
/// epoch, or, for a reading before it, `Err` with the time before it (the
/// error's `duration`). Trusted: the durations are the clock's, so nothing is
/// stated of them; std documents no panic.
#[verifier::external_body]
fn since_epoch(t: &std::time::SystemTime) -> (r: Result<core::time::Duration, core::time::Duration>) {
    match t.duration_since(std::time::UNIX_EPOCH) {
        Ok(d) => Ok(d),
        Err(e) => Err(e.duration()),
    }
}

/// The whole seconds of a duration, with `Duration::as_secs`. Trusted: the
/// value is the duration's, which is opaque here, so nothing is stated.
#[verifier::external_body]
fn duration_secs(d: &core::time::Duration) -> (s: u64) {
    d.as_secs()
}

/// The nanoseconds of a duration within its last second, with
/// `Duration::subsec_nanos`. Trusted: std documents that this is below one
/// billion.
#[verifier::external_body]
fn duration_subsec_nanos(d: &core::time::Duration) -> (n: u32)
    ensures
        n < 1_000_000_000,
{
    d.subsec_nanos()
}

/// The largest number of seconds from the epoch, either way, that an instant
/// of the library reaches: within the years chrono can represent.
pub const CLOCK_LIMIT_SECS: i64 = 8_200_000_000_000;

/// The current instant of the system clock, in UTC. A clock before 1970
/// gives the instant before the epoch it reads; a reading more than
/// `CLOCK_LIMIT_SECS` seconds from the epoch (over 259,000 years) is taken as
/// the whole second at that limit, on its side of the epoch.
pub fn now() -> (t: Timestamp)
    ensures
        -CLOCK_LIMIT_SECS <= t.secs <= CLOCK_LIMIT_SECS,
        t.nanos < 1_000_000_000,
{
    let reading = system_time_now();
    match since_epoch(&reading) {
        Ok(d) => {
            let s = duration_secs(&d);
            let n = duration_subsec_nanos(&d);
            if s > 8_200_000_000_000u64 {
                Timestamp { secs: CLOCK_LIMIT_SECS, nanos: 0 }
            } else {
                Timestamp { secs: s as i64, nanos: n }
            }
        },
        Err(d) => {
            let s = duration_secs(&d);
            let n = duration_subsec_nanos(&d);
            if s >= 8_200_000_000_000u64 {
                Timestamp { secs: -CLOCK_LIMIT_SECS, nanos: 0 }
            } else if n == 0 {
                Timestamp { secs: -(s as i64), nanos: 0 }
            } else {
                Timestamp { secs: -(s as i64) - 1, nanos: 1_000_000_000 - n }
            }
        },
    }
}

/// Fills sixteen bytes from the operating system's random source with
/// `rand::rngs::SysRng` (`TryRng::try_fill_bytes`, which calls
/// `getrandom::fill`). Trusted: the bytes are random, so nothing is stated of
/// them; `None` where the source fails (it does not panic).
#[verifier::external_body]
fn os_random_bytes() -> (r: Option<[u8; 16]>) {
    let mut bytes = [0u8; 16];
    match rand::TryRng::try_fill_bytes(&mut rand::rngs::SysRng, &mut bytes) {
        Ok(()) => Some(bytes),
        Err(_) => None,
    }
}

/// The lowercase hexadecimal digit of a value below sixteen.
pub open spec fn hex_digit(n: int) -> char {
    if n < 10 {
        ((n + 48) as u32) as char
    } else {
        ((n + 87) as u32) as char
    }
}

/// Byte `i` of the version-4 UUID built from `bytes`: byte 6 carries the
/// version 4 in its high nibble, byte 8 the variant bits `10` at its top, the
/// others are the bytes given.
pub open spec fn uuid_v4_byte(bytes: Seq<u8>, i: int) -> u8 {
    if i == 6 {
        (bytes[6] & 0x0f) | 0x40
    } else if i == 8 {
        (bytes[8] & 0x3f) | 0x80
    } else {
        bytes[i]
    }
}

/// The hexadecimal digits, two per byte, of the UUID bytes from `from` up
/// to `to`.
pub open spec fn uuid_hex(bytes: Seq<u8>, from: int, to: int) -> Seq<char>
    decreases to - from,
{
    if from >= to {
        Seq::empty()
    } else {
        let b = uuid_v4_byte(bytes, from) as int;
        seq![hex_digit(b / 16), hex_digit(b % 16)] + uuid_hex(bytes, from + 1, to)
    }
}

/// The hyphenated text of the version-4 UUID built from sixteen random bytes:
/// the lowercase hexadecimal digits of its bytes in groups of 4, 2, 2, 2 and 6
/// bytes, separated by hyphens.
pub open spec fn uuid_v4_text(bytes: Seq<u8>) -> Seq<char> {
    uuid_hex(bytes, 0, 4) + seq!['-'] + uuid_hex(bytes, 4, 6) + seq!['-'] + uuid_hex(bytes, 6, 8) + seq!['-']
        + uuid_hex(bytes, 8, 10) + seq!['-'] + uuid_hex(bytes, 10, 16)
}

/// Builds a version-4 UUID from random bytes with
/// `uuid::Builder::from_random_bytes` and renders it with `to_string`.
/// Trusted: `from_random_bytes` sets the version and variant bits
/// (`with_version`, `with_variant`) and `Display` writes the lowercase
/// hyphenated form, which is `uuid_v4_text` of the bytes: 36 characters with
/// hyphens at positions 8, 13, 18 and 23.
#[verifier::external_body]
fn uuid_from_random_bytes(bytes: [u8; 16]) -> (s: String)
    ensures
        s@ == uuid_v4_text(bytes@),
        s@.len() == 36,
        s@[8] == '-' && s@[13] == '-' && s@[18] == '-' && s@[23] == '-',
{
    uuid::Builder::from_random_bytes(bytes).into_uuid().to_string()
}

/// Whether `s` has the shape of a hyphenated UUID: 36 characters with hyphens
/// at positions 8, 13, 18 and 23.
pub open spec fn uuid_shaped(s: Seq<char>) -> bool {
    s.len() == 36 && s[8] == '-' && s[13] == '-' && s[18] == '-' && s[23] == '-'
}

/// A fresh random version-4 UUID in its hyphenated form, or `None` when the
/// operating system's random source fails.
pub fn new_uuid() -> (r: Option<String>)
    ensures
        r matches Some(s) ==> uuid_shaped(s@),
        r matches Some(s) ==> exists|b: Seq<u8>| b.len() == 16 && s@ == #[trigger] uuid_v4_text(b),
{
    match os_random_bytes() {
        Some(bytes) => Some(uuid_from_random_bytes(bytes)),
        None => None,
    }
}

/// A 32-bit float carried by its bit pattern (what `f32::to_bits` gives).
#[derive(Debug, Clone, Copy, PartialEq, Eq, Hash, Structural)]
pub struct F32Bits {
    pub bits: u32,
}

/// The bits of a 32-bit float without its sign bit.
pub open spec fn f32_magnitude(f: F32Bits) -> u32 {
    if f.bits >= 0x8000_0000 {
        (f.bits - 0x8000_0000) as u32
    } else {
        f.bits
    }
}

/// Whether a 32-bit float is NaN: its magnitude bits lie above those of
/// infinity.
pub open spec fn f32_nan(f: F32Bits) -> bool {
    f32_magnitude(f) > 0x7f80_0000
}

/// Whether a 32-bit float is below zero (`f < 0.0`): a number with the sign
/// bit set other than negative zero.
pub open spec fn f32_below_zero(f: F32Bits) -> bool {
    !f32_nan(f) && f.bits >= 0x8000_0000 && f32_magnitude(f) != 0
}

/// Whether a 32-bit float is above zero (`f > 0.0`): a number without the
/// sign bit other than zero.
pub open spec fn f32_above_zero(f: F32Bits) -> bool {
    !f32_nan(f) && f.bits < 0x8000_0000 && f.bits != 0
}

/// An integer that orders 32-bit floats that are not NaN as the floats
/// order: negative floats (sign bit set) below positive ones, larger
/// magnitudes further from the middle, and both zeros at the middle.
pub open spec fn f32_order(f: F32Bits) -> int {
    if f.bits >= 0x8000_0000 {
        0x8000_0000 - f32_magnitude(f)
    } else {
        0x8000_0000 + f.bits
    }
}

/// Whether `a >= b` holds of the 32-bit floats (false when either is NaN).
pub open spec fn f32_at_least(a: F32Bits, b: F32Bits) -> bool {
    !f32_nan(a) && !f32_nan(b) && f32_order(a) >= f32_order(b)
}

/// Whether `a < b` holds of the 32-bit floats (false when either is NaN).
pub open spec fn f32_less(a: F32Bits, b: F32Bits) -> bool {
    !f32_nan(a) && !f32_nan(b) && f32_order(a) < f32_order(b)
}

impl F32Bits {
    /// Whether `self < other` holds of the floats.
    pub fn less_than(&self, other: &F32Bits) -> (r: bool)
        ensures
            r == f32_less(*self, *other),
    {
        let ma = if self.bits >= 0x8000_0000 { self.bits - 0x8000_0000 } else { self.bits };
        let mb = if other.bits >= 0x8000_0000 { other.bits - 0x8000_0000 } else { other.bits };
        if ma > 0x7f80_0000 || mb > 0x7f80_0000 {
            return false;
        }
        let oa: u64 = if self.bits >= 0x8000_0000 { 0x8000_0000u64 - ma as u64 } else { 0x8000_0000u64 + self.bits as u64 };
        let ob: u64 = if other.bits >= 0x8000_0000 { 0x8000_0000u64 - mb as u64 } else { 0x8000_0000u64 + other.bits as u64 };
        oa < ob
    }

    /// Whether `self >= other` holds of the floats.
    pub fn at_least(&self, other: &F32Bits) -> (r: bool)
        ensures
            r == f32_at_least(*self, *other),
    {
        let ma = if self.bits >= 0x8000_0000 { self.bits - 0x8000_0000 } else { self.bits };
        let mb = if other.bits >= 0x8000_0000 { other.bits - 0x8000_0000 } else { other.bits };
        if ma > 0x7f80_0000 || mb > 0x7f80_0000 {
            return false;
        }
        let oa: u64 = if self.bits >= 0x8000_0000 { 0x8000_0000u64 - ma as u64 } else { 0x8000_0000u64 + self.bits as u64 };
        let ob: u64 = if other.bits >= 0x8000_0000 { 0x8000_0000u64 - mb as u64 } else { 0x8000_0000u64 + other.bits as u64 };
        oa >= ob
    }

    /// Whether the float is below zero (`f < 0.0`).
    pub fn is_below_zero(&self) -> (r: bool)
        ensures
            r == f32_below_zero(*self),
    {
        let m = if self.bits >= 0x8000_0000 { self.bits - 0x8000_0000 } else { self.bits };
        m <= 0x7f80_0000 && self.bits >= 0x8000_0000 && m != 0
    }

    /// Whether the float is above zero (`f > 0.0`).
    pub fn is_above_zero(&self) -> (r: bool)
        ensures
            r == f32_above_zero(*self),
    {
        self.bits <= 0x7f80_0000 && self.bits != 0
    }

    /// Whether the float is at most zero (`f <= 0.0`; false for NaN).
    pub fn is_at_most_zero(&self) -> (r: bool)
        ensures
            r == (!f32_nan(*self) && !f32_above_zero(*self)),
    {
        let m = if self.bits >= 0x8000_0000 { self.bits - 0x8000_0000 } else { self.bits };
        m <= 0x7f80_0000 && !(self.bits < 0x8000_0000 && self.bits != 0)
    }
}

/// A 64-bit float as the library compares it: `order` is an integer that sorts
/// as the float sorts (negative zero counted as zero), and `nan` marks a value
/// that is not a number, which compares neither below nor above anything.
#[derive(Debug, Clone, Copy, PartialEq, Eq, Hash, Structural)]
pub struct OrderedFloat {
    pub order: u64,
    pub nan: bool,
}

/// Whether `a < b` holds of the floats that `a` and `b` stand for.
pub open spec fn float_lt(a: OrderedFloat, b: OrderedFloat) -> bool {
    !a.nan && !b.nan && a.order < b.order
}

impl OrderedFloat {
    /// Whether the float `self` stands for is below the one `other` stands for.
    pub fn lt(&self, other: &OrderedFloat) -> (r: bool)
        ensures
            r == float_lt(*self, *other),
    {
        !self.nan && !other.nan && self.order < other.order
    }
}

/// The instant, in UTC, that an RFC 3339 text denotes, if it is valid.
pub uninterp spec fn rfc3339_instant(s: Seq<char>) -> Option<Timestamp>;

/// Parses an RFC 3339 text with `chrono::DateTime::parse_from_rfc3339` and
/// converts the instant to UTC. Trusted: the result is the named instant of the
/// text, `None` where chrono refuses it.
#[verifier::external_body]
pub fn parse_rfc3339(s: &str) -> (r: Option<Timestamp>)
    ensures
        r == rfc3339_instant(s@),
{
    match chrono::DateTime::parse_from_rfc3339(s) {
        Ok(dt) => {
            let u = dt.with_timezone(&chrono::Utc);
            Some(Timestamp { secs: u.timestamp(), nanos: u.timestamp_subsec_nanos() })
        },
        Err(_) => None,
    }
}

/// The RFC 3339 text serde gives an instant in UTC (`Z` for the offset,
/// fractional seconds only where there are any), if chrono can represent it.
pub uninterp spec fn rfc3339_text(t: Timestamp) -> Option<Seq<char>>;

/// Renders an instant with `chrono::DateTime::to_rfc3339_opts` in the format
/// serde uses for `DateTime<Utc>`. Trusted: the result is the named text of
/// the instant; `None` where `chrono::DateTime::from_timestamp` cannot
/// represent it.
#[verifier::external_body]
pub fn format_rfc3339(t: Timestamp) -> (r: Option<String>)
    ensures
        match r {
            Some(s) => rfc3339_text(t) == Some(s@),
            None => rfc3339_text(t) is None,
        },
{
    match chrono::DateTime::from_timestamp(t.secs, t.nanos) {
        Some(dt) => Some(dt.to_rfc3339_opts(chrono::SecondsFormat::AutoSi, true)),
        None => None,
    }
}

/// Whether the `f64` with bit pattern `bits` is not a number: all exponent bits
/// set and a nonzero fraction.
pub open spec fn f64_bits_nan(bits: u64) -> bool {
    bits & 0x7ff0_0000_0000_0000 == 0x7ff0_0000_0000_0000 && bits & 0x000f_ffff_ffff_ffff != 0
}

/// The sort key of the `f64` with bit pattern `bits`: negative zero is read as
/// zero, the bits of a negative number are inverted, and a non-negative number
/// gets its sign bit set, so that the keys of numbers sort as the numbers do.
pub open spec fn f64_bits_order(bits: u64) -> u64 {
    let b = if bits == 0x8000_0000_0000_0000 { 0u64 } else { bits };
    if b & 0x8000_0000_0000_0000 != 0 {
        !b
    } else {
        b | 0x8000_0000_0000_0000
    }
}

impl OrderedFloat {
    /// The float with the given `f64` bit pattern (what `f64::to_bits` gives).
    pub fn from_f64_bits(bits: u64) -> (r: OrderedFloat)
        ensures
            r.nan == f64_bits_nan(bits),
            !r.nan ==> r.order == f64_bits_order(bits),
    {
        let nan = bits & 0x7ff0_0000_0000_0000 == 0x7ff0_0000_0000_0000 && bits & 0x000f_ffff_ffff_ffff != 0;
        if nan {
            return OrderedFloat { order: 0, nan: true };
        }
        let b = if bits == 0x8000_0000_0000_0000 { 0u64 } else { bits };
        let order = if b & 0x8000_0000_0000_0000 != 0 { !b } else { b | 0x8000_0000_0000_0000 };
        OrderedFloat { order, nan: false }
    }
}

} // verus!
