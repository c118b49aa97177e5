use vstd::prelude::*;

use vstd::utf8::decode_utf8;
use vstd::utf8::encode_utf8;
use vstd::utf8::valid_utf8;

verus! {

// The Checkvist service exchanges timestamps in the fixed-width form
// `YYYY/MM/DD HH:MM:SS +HHMM` (25 ASCII bytes). This module holds the
// date type and the codec for that wire form.

/// A calendar timestamp with a fixed UTC offset, held as plain fields.
#[derive(Debug, Clone, Copy, PartialEq, Eq, Structural)]
pub struct CheckvistDate {
    pub year: u16,
    pub month: u8,
    pub day: u8,
    pub hour: u8,
    pub minute: u8,
    pub second: u8,
    /// True when the UTC offset is negative (west of UTC).
    pub offset_negative: bool,
    pub offset_hours: u8,
    pub offset_minutes: u8,
}

pub open spec fn spec_is_leap_year(y: int) -> bool {
    y % 4 == 0 && (y % 100 != 0 || y % 400 == 0)
}

pub open spec fn spec_days_in_month(y: int, m: int) -> int {
    if m == 2 {
        if spec_is_leap_year(y) {
            29
        } else {
            28
        }
    } else if m == 4 || m == 6 || m == 9 || m == 11 {
        30
    } else {
        31
    }
}

impl CheckvistDate {
    /// A timestamp is well formed when every field lies in its calendar range.
    pub open spec fn wf(self) -> bool {
        &&& self.year <= 9999
        &&& 1 <= self.month <= 12
        &&& 1 <= self.day <= spec_days_in_month(self.year as int, self.month as int)
        &&& self.hour < 24
        &&& self.minute < 60
        &&& self.second < 60
        &&& self.offset_hours < 24
        &&& self.offset_minutes < 60
    }

    pub fn is_wf(&self) -> (r: bool)
        ensures
            r == self.wf(),
    {
        let days: u8 = days_in_month(self.year, self.month);
        self.year <= 9999 && 1 <= self.month && self.month <= 12 && 1 <= self.day
            && self.day <= days && self.hour < 24 && self.minute < 60 && self.second < 60
            && self.offset_hours < 24 && self.offset_minutes < 60
    }
}

/// Days of the given month, honouring leap years; 31 for an out-of-range month.
pub fn days_in_month(year: u16, month: u8) -> (r: u8)
    ensures
        r == spec_days_in_month(year as int, month as int),
{
    if month == 2 {
        if year % 4 == 0 && (year % 100 != 0 || year % 400 == 0) {
            29
        } else {
            28
        }
    } else if month == 4 || month == 6 || month == 9 || month == 11 {
        30
    } else {
        31
    }
}

pub open spec fn is_digit(b: u8) -> bool {
    48 <= b <= 57
}

pub open spec fn digit_of(n: int) -> u8 {
    (48 + n) as u8
}

/// Decimal digits of `n` (below 100), most significant first.
pub open spec fn spec_two_digits(n: int) -> Seq<u8> {
    seq![digit_of(n / 10), digit_of(n % 10)]
}

/// Decimal digits of `n` (below 10000), most significant first.
pub open spec fn spec_four_digits(n: int) -> Seq<u8> {
    spec_two_digits(n / 100) + spec_two_digits(n % 100)
}

/// The 25-byte wire form of a timestamp.
pub open spec fn spec_format_date(d: CheckvistDate) -> Seq<u8> {
    spec_four_digits(d.year as int) + seq![47u8] + spec_two_digits(d.month as int) + seq![47u8]
        + spec_two_digits(d.day as int) + seq![32u8] + spec_two_digits(d.hour as int) + seq![58u8]
        + spec_two_digits(d.minute as int) + seq![58u8] + spec_two_digits(d.second as int)
        + seq![32u8] + seq![if d.offset_negative { 45u8 } else { 43u8 }] + spec_two_digits(
        d.offset_hours as int,
    ) + spec_two_digits(d.offset_minutes as int)
}

pub open spec fn digits_at(s: Seq<u8>, i: int, n: int) -> bool {
    forall|j: int| i <= j < i + n ==> is_digit(#[trigger] s[j])
}

pub open spec fn two_digit_val(s: Seq<u8>, i: int) -> int {
    (s[i] - 48) * 10 + (s[i + 1] - 48)
}

pub open spec fn four_digit_val(s: Seq<u8>, i: int) -> int {
    two_digit_val(s, i) * 100 + two_digit_val(s, i + 2)
}

/// The shape test for the wire form: every separator in its place and
/// digits everywhere a number is expected.
pub open spec fn date_shape_ok(s: Seq<u8>) -> bool {
    &&& s.len() == 25
    &&& digits_at(s, 0, 4)
    &&& s[4] == 47u8
    &&& digits_at(s, 5, 2)
    &&& s[7] == 47u8
    &&& digits_at(s, 8, 2)
    &&& s[10] == 32u8
    &&& digits_at(s, 11, 2)
    &&& s[13] == 58u8
    &&& digits_at(s, 14, 2)
    &&& s[16] == 58u8
    &&& digits_at(s, 17, 2)
    &&& s[19] == 32u8
    &&& (s[20] == 43u8 || s[20] == 45u8)
    &&& digits_at(s, 21, 4)
}

pub open spec fn date_of_shape(s: Seq<u8>) -> CheckvistDate {
    CheckvistDate {
        year: four_digit_val(s, 0) as u16,
        month: two_digit_val(s, 5) as u8,
        day: two_digit_val(s, 8) as u8,
        hour: two_digit_val(s, 11) as u8,
        minute: two_digit_val(s, 14) as u8,
        second: two_digit_val(s, 17) as u8,
        offset_negative: s[20] == 45u8,
        offset_hours: two_digit_val(s, 21) as u8,
        offset_minutes: two_digit_val(s, 23) as u8,
    }
}

/// What parsing the wire form yields: the timestamp when the bytes have
/// the right shape and the fields are in range, nothing otherwise.
pub open spec fn spec_parse_date(s: Seq<u8>) -> Option<CheckvistDate> {
    if date_shape_ok(s) && date_of_shape(s).wf() {
        Some(date_of_shape(s))
    } else {
        None
    }
}

fn push_two_digits(out: &mut Vec<u8>, n: u8)
    requires
        n < 100,
    ensures
        final(out)@ == old(out)@ + spec_two_digits(n as int),
{
    out.push(48 + n / 10);
    out.push(48 + n % 10);
    assert(final(out)@ =~= old(out)@ + spec_two_digits(n as int));
}

fn push_four_digits(out: &mut Vec<u8>, n: u16)
    requires
        n < 10000,
    ensures
        final(out)@ == old(out)@ + spec_four_digits(n as int),
{
    push_two_digits(out, (n / 100) as u8);
    push_two_digits(out, (n % 100) as u8);
    assert(final(out)@ =~= old(out)@ + spec_four_digits(n as int));
}

/// Render a timestamp in the Checkvist wire form.
pub fn format_date(d: &CheckvistDate) -> (r: Vec<u8>)
    requires
        d.wf(),
    ensures
        r@ == spec_format_date(*d),
{
    let mut out: Vec<u8> = Vec::new();
    push_four_digits(&mut out, d.year);
    out.push(47);
    push_two_digits(&mut out, d.month);
    out.push(47);
    push_two_digits(&mut out, d.day);
    out.push(32);
    push_two_digits(&mut out, d.hour);
    out.push(58);
    push_two_digits(&mut out, d.minute);
    out.push(58);
    push_two_digits(&mut out, d.second);
    out.push(32);
    if d.offset_negative {
        out.push(45);
    } else {
        out.push(43);
    }
    push_two_digits(&mut out, d.offset_hours);
    push_two_digits(&mut out, d.offset_minutes);
    assert(out@ =~= spec_format_date(*d));
    out
}

fn read_two_digits(s: &Vec<u8>, i: usize) -> (r: Option<u8>)
    requires
        i + 2 <= s@.len(),
        s@.len() <= usize::MAX,
    ensures
        match r {
            Some(v) => digits_at(s@, i as int, 2) && v == two_digit_val(s@, i as int),
            None => !digits_at(s@, i as int, 2),
        },
{
    let a = s[i];
    let b = s[i + 1];
    if 48 <= a && a <= 57 && 48 <= b && b <= 57 {
        Some((a - 48) * 10 + (b - 48))
    } else {
        None
    }
}

/// Parse the Checkvist wire form of a timestamp.
pub fn parse_date(s: &Vec<u8>) -> (r: Option<CheckvistDate>)
    ensures
        r == spec_parse_date(s@),
{
    if s.len() != 25 {
        return None;
    }
    let Some(y_hi) = read_two_digits(s, 0) else { return None };
    let Some(y_lo) = read_two_digits(s, 2) else { return None };
    let Some(month) = read_two_digits(s, 5) else { return None };
    let Some(day) = read_two_digits(s, 8) else { return None };
    let Some(hour) = read_two_digits(s, 11) else { return None };
    let Some(minute) = read_two_digits(s, 14) else { return None };
    let Some(second) = read_two_digits(s, 17) else { return None };
    let Some(oh) = read_two_digits(s, 21) else { return None };
    let Some(om) = read_two_digits(s, 23) else { return None };
    if !(s[4] == 47 && s[7] == 47 && s[10] == 32 && s[13] == 58 && s[16] == 58 && s[19] == 32) {
        return None;
    }
    let sign = s[20];
    if !(sign == 43 || sign == 45) {
        return None;
    }
    let year: u16 = (y_hi as u16) * 100 + (y_lo as u16);
    let d = CheckvistDate {
        year,
        month,
        day,
        hour,
        minute,
        second,
        offset_negative: sign == 45,
        offset_hours: oh,
        offset_minutes: om,
    };
    assert(digits_at(s@, 0, 4)) by {
        assert(is_digit(s@[0]) && is_digit(s@[1]) && is_digit(s@[2]) && is_digit(s@[3]));
    }
    assert(date_shape_ok(s@));
    assert(d == date_of_shape(s@));
    if d.is_wf() {
        Some(d)
    } else {
        None
    }
}

/// Parsing inverts formatting: the wire form of a well-formed timestamp
/// parses back to that same timestamp.
#[verifier::rlimit(100)]
#[verifier::spinoff_prover]
pub proof fn lemma_date_round_trip(d: CheckvistDate)
    requires
        d.wf(),
    ensures
        spec_parse_date(spec_format_date(d)) == Some(d),
{
    let s = spec_format_date(d);
    assert(s.len() == 25);
    lemma_two_digit_chars(d.month as int);
    lemma_two_digit_chars(d.day as int);
    lemma_two_digit_chars(d.hour as int);
    lemma_two_digit_chars(d.minute as int);
    lemma_two_digit_chars(d.second as int);
    lemma_two_digit_chars(d.offset_hours as int);
    lemma_two_digit_chars(d.offset_minutes as int);
    lemma_two_digit_chars((d.year as int) / 100);
    lemma_two_digit_chars((d.year as int) % 100);
    assert(date_shape_ok(s));
    assert(two_digit_val(s, 5) == d.month as int);
    assert(four_digit_val(s, 0) == d.year as int);
    assert(date_of_shape(s) == d);
}

/// The characters that a run of ASCII bytes reads as.
pub open spec fn ascii_chars(b: Seq<u8>) -> Seq<char> {
    b.map_values(|x: u8| x as char)
}

/// A run of bytes below 128 is valid UTF-8 and decodes byte for byte.
pub proof fn lemma_ascii_decode(b: Seq<u8>)
    requires
        forall|i: int| 0 <= i < b.len() ==> #[trigger] b[i] < 128,
    ensures
        valid_utf8(b),
        decode_utf8(b) == ascii_chars(b),
    decreases b.len(),
{
    if b.len() > 0 {
        let x = b[0];
        assert(vstd::utf8::is_leading_byte_width_1(x)) by (bit_vector)
            requires
                x < 128,
        ;
        assert(vstd::utf8::codepoint_width_1(x) == x as u32) by (bit_vector)
            requires
                x < 128,
        ;
        let rest = b.subrange(1, b.len() as int);
        lemma_ascii_decode(rest);
        assert(vstd::utf8::pop_first_scalar(b) == rest);
        assert(decode_utf8(b) =~= ascii_chars(b)) by {
            assert(decode_utf8(rest) == ascii_chars(rest));
            assert(ascii_chars(b).drop_first() =~= ascii_chars(rest));
            assert(decode_utf8(b) == seq![x as char] + decode_utf8(rest));
        }
    } else {
        assert(decode_utf8(b) =~= ascii_chars(b));
    }
}

/// Every byte of the wire form of a timestamp is ASCII.
pub proof fn lemma_format_date_ascii(d: CheckvistDate)
    requires
        d.wf(),
    ensures
        forall|i: int|
            0 <= i < spec_format_date(d).len() ==> #[trigger] spec_format_date(d)[i] < 128,
{
    lemma_date_round_trip(d);
    let s = spec_format_date(d);
    assert(date_shape_ok(s));
    assert forall|i: int| 0 <= i < s.len() implies #[trigger] s[i] < 128 by {
        if i == 4 || i == 7 || i == 10 || i == 13 || i == 16 || i == 19 || i == 20 {
        } else {
            assert(is_digit(s[i]));
        }
    }
}

/// The text a timestamp is stored as: the wire form read as characters.
pub open spec fn date_text(d: CheckvistDate) -> Seq<char> {
    ascii_chars(spec_format_date(d))
}

/// Formatting inverts parsing: bytes that parse as a timestamp are that
/// timestamp's wire form.
#[verifier::rlimit(100)]
#[verifier::spinoff_prover]
pub proof fn lemma_parse_then_format(s: Seq<u8>)
    requires
        spec_parse_date(s) is Some,
    ensures
        spec_format_date(spec_parse_date(s).unwrap()) == s,
{
    let d = date_of_shape(s);
    let f = spec_format_date(d);
    lemma_two_digit_split(two_digit_val(s, 5));
    lemma_two_digit_split(two_digit_val(s, 8));
    lemma_two_digit_split(two_digit_val(s, 11));
    lemma_two_digit_split(two_digit_val(s, 14));
    lemma_two_digit_split(two_digit_val(s, 17));
    lemma_two_digit_split(two_digit_val(s, 21));
    lemma_two_digit_split(two_digit_val(s, 23));
    lemma_four_digit_split(s);
    assert(f =~= s);
}

/// A two-digit value decomposes back into its digits.
proof fn lemma_two_digit_split(n: int)
    ensures
        0 <= n < 100 ==> n / 10 == (n - n % 10) / 10 && spec_two_digits(n) == seq![
            digit_of(n / 10),
            digit_of(n % 10),
        ],
{
}

proof fn lemma_four_digit_split(s: Seq<u8>)
    requires
        date_shape_ok(s),
    ensures
        ({
            let y = four_digit_val(s, 0);
            0 <= y <= 9999 ==> spec_four_digits(y) =~= seq![s[0], s[1], s[2], s[3]]
        }),
{
    let y = four_digit_val(s, 0);
    let hi = two_digit_val(s, 0);
    let lo = two_digit_val(s, 2);
    assert(0 <= hi < 100 && 0 <= lo < 100) by {
        assert(is_digit(s[0]) && is_digit(s[1]) && is_digit(s[2]) && is_digit(s[3]));
    }
    if 0 <= y <= 9999 {
        assert(y == hi * 100 + lo);
        assert(y / 100 == hi && y % 100 == lo) by (nonlinear_arith)
            requires
                y == hi * 100 + lo,
                0 <= hi < 100,
                0 <= lo < 100,
        ;
        lemma_two_digit_split(hi);
        lemma_two_digit_split(lo);
        assert(spec_four_digits(y) =~= seq![s[0], s[1], s[2], s[3]]);
    }
}

proof fn lemma_two_digit_chars(n: int)
    requires
        0 <= n < 100,
    ensures
        is_digit(spec_two_digits(n)[0]),
        is_digit(spec_two_digits(n)[1]),
        spec_two_digits(n)[0] == digit_of(n / 10),
        spec_two_digits(n)[1] == digit_of(n % 10),
        (spec_two_digits(n)[0] - 48) * 10 + (spec_two_digits(n)[1] - 48) == n,
{
}

} // verus!
