use vstd::prelude::*;

use vstd::string::StringSliceAdditionalSpecFns;
use vstd::utf8::*;

use crate::date::CheckvistDate;
use crate::date::parse_date;
use crate::date::spec_parse_date;
use crate::types::Checklist;
use crate::types::Task;

verus! {

// The JSON wire codec for the Checkvist protocol, written over raw
// bytes. The spec functions are the grammar; each exec function is
// proved to compute exactly what its spec counterpart says.

pub open spec fn is_ws(b: u8) -> bool {
    b == 32 || b == 9 || b == 10 || b == 13
}

/// Index of the first non-whitespace byte at or after `i`.
pub open spec fn ws_end(s: Seq<u8>, i: int) -> int
    decreases s.len() - i,
{
    if i < s.len() && is_ws(s[i]) {
        ws_end(s, i + 1)
    } else {
        i
    }
}

pub proof fn lemma_ws_end_bounds(s: Seq<u8>, i: int)
    requires
        0 <= i <= s.len(),
    ensures
        i <= ws_end(s, i) <= s.len(),
    decreases s.len() - i,
{
    if i < s.len() && is_ws(s[i]) {
        lemma_ws_end_bounds(s, i + 1);
    }
}

pub fn skip_ws(s: &Vec<u8>, i: usize) -> (r: usize)
    requires
        i <= s@.len(),
    ensures
        r == ws_end(s@, i as int),
        i <= r <= s@.len(),
    decreases s@.len() - i,
{
    proof {
        lemma_ws_end_bounds(s@, i as int);
    }
    if i < s.len() {
        let b = s[i];
        if b == 32 || b == 9 || b == 10 || b == 13 {
            return skip_ws(s, i + 1);
        }
    }
    i
}

pub open spec fn is_json_digit(b: u8) -> bool {
    48 <= b <= 57
}

/// End of the run of decimal digits starting at `i`.
pub open spec fn digits_end(s: Seq<u8>, i: int) -> int
    decreases s.len() - i,
{
    if i < s.len() && is_json_digit(s[i]) {
        digits_end(s, i + 1)
    } else {
        i
    }
}

pub proof fn lemma_digits_end_bounds(s: Seq<u8>, i: int)
    requires
        0 <= i <= s.len(),
    ensures
        i <= digits_end(s, i) <= s.len(),
        forall|j: int| i <= j < digits_end(s, i) ==> is_json_digit(#[trigger] s[j]),
    decreases s.len() - i,
{
    if i < s.len() && is_json_digit(s[i]) {
        lemma_digits_end_bounds(s, i + 1);
    }
}

/// Value of the digit run `s[i..e]`, most significant digit first.
pub open spec fn dec_val(s: Seq<u8>, i: int, e: int) -> int
    decreases e - i,
{
    if e <= i {
        0
    } else {
        dec_val(s, i, e - 1) * 10 + (s[e - 1] - 48)
    }
}

/// What reading an unsigned 32-bit number at `i` yields: the digit run
/// and its value, refused when there is no digit, the run is longer
/// than ten digits, or the value exceeds `u32::MAX`.
pub open spec fn spec_parse_u32_at(s: Seq<u8>, i: int) -> Option<(u32, int)> {
    let e = digits_end(s, i);
    if e == i || e - i > 10 || dec_val(s, i, e) > u32::MAX {
        None
    } else {
        Some((dec_val(s, i, e) as u32, e))
    }
}

/// `dec_val` of at most `n` digits is at most `bound`, where `bound`
/// is `10^n - 1`.
proof fn lemma_dec_val_tiny(s: Seq<u8>, i: int, e: int, n: int, bound: int)
    requires
        0 <= i <= e <= s.len(),
        forall|j: int| i <= j < e ==> is_json_digit(#[trigger] s[j]),
        e - i <= n,
        0 <= n,
        bound == spec_pow10(n) - 1,
    ensures
        dec_val(s, i, e) <= bound,
    decreases e - i,
{
    lemma_pow10_pos(n);
    if e > i {
        lemma_dec_val_tiny(s, i, e - 1, n - 1, spec_pow10(n - 1) - 1);
    }
}

pub proof fn lemma_pow10_pos(n: int)
    ensures
        spec_pow10(n) >= 1,
    decreases n,
{
    if n > 0 {
        lemma_pow10_pos(n - 1);
    }
}

pub proof fn lemma_pow10_ten()
    ensures
        spec_pow10(10) == 10000000000,
{
    assert(spec_pow10(0) == 1);
    assert(spec_pow10(1) == 10);
    assert(spec_pow10(2) == 100);
    assert(spec_pow10(3) == 1000);
    assert(spec_pow10(4) == 10000);
    assert(spec_pow10(5) == 100000);
    assert(spec_pow10(6) == 1000000);
    assert(spec_pow10(7) == 10000000);
    assert(spec_pow10(8) == 100000000);
    assert(spec_pow10(9) == 1000000000);
    assert(spec_pow10(10) == 10000000000);
}

pub open spec fn spec_pow10(n: int) -> int
    decreases n,
{
    if n <= 0 {
        1
    } else {
        10 * spec_pow10(n - 1)
    }
}

/// Read an unsigned 32-bit decimal number at `i`.
pub fn parse_u32_at(s: &Vec<u8>, i: usize) -> (r: Option<(u32, usize)>)
    requires
        i <= s@.len(),
    ensures
        match r {
            Some((v, e)) => spec_parse_u32_at(s@, i as int) == Some((v, e as int)) && i <= e
                <= s@.len(),
            None => spec_parse_u32_at(s@, i as int) is None,
        },
{
    let len = s.len();
    let mut e: usize = i;
    while e < len && s[e] >= 48 && s[e] <= 57
        invariant
            i <= e <= len,
            len == s@.len(),
            digits_end(s@, i as int) == digits_end(s@, e as int),
            forall|j: int| i <= j < e ==> is_json_digit(#[trigger] s@[j]),
        decreases len - e,
    {
        e = e + 1;
    }
    assert(digits_end(s@, e as int) == e);
    if e == i || e - i > 10 {
        return None;
    }
    proof {
        lemma_pow10_ten();
        lemma_dec_val_tiny(s@, i as int, e as int, 10, spec_pow10(10) - 1);
    }
    let mut acc: u64 = 0;
    let mut j: usize = i;
    while j < e
        invariant
            i <= j <= e <= s@.len(),
            e - i <= 10,
            forall|k: int| i <= k < e ==> is_json_digit(#[trigger] s@[k]),
            acc == dec_val(s@, i as int, j as int),
            acc <= 0x2540BE3FF,
        decreases e - j,
    {
        proof {
            lemma_pow10_ten();
            lemma_dec_val_tiny(s@, i as int, j as int + 1, 10, spec_pow10(10) - 1);
        }
        acc = acc * 10 + ((s[j] - 48) as u64);
        j = j + 1;
    }
    if acc > 0xFFFFFFFF {
        return None;
    }
    Some((acc as u32, e))
}

pub open spec fn is_hex_digit(b: u8) -> bool {
    is_json_digit(b) || (97 <= b <= 102) || (65 <= b <= 70)
}

pub open spec fn hex_val(b: u8) -> int {
    if is_json_digit(b) {
        b - 48
    } else if 97 <= b <= 102 {
        b - 87
    } else {
        b - 55
    }
}

fn hex_digit_val(b: u8) -> (r: Option<u8>)
    ensures
        match r {
            Some(v) => is_hex_digit(b) && v == hex_val(b),
            None => !is_hex_digit(b),
        },
{
    if 48 <= b && b <= 57 {
        Some(b - 48)
    } else if 97 <= b && b <= 102 {
        Some(b - 87)
    } else if 65 <= b && b <= 70 {
        Some(b - 55)
    } else {
        None
    }
}

/// Value of the four hex digits at `i`.
pub open spec fn hex4_val(s: Seq<u8>, i: int) -> int {
    hex_val(s[i]) * 0x1000 + hex_val(s[i + 1]) * 0x100 + hex_val(s[i + 2]) * 16 + hex_val(
        s[i + 3],
    )
}

pub open spec fn hex4_ok(s: Seq<u8>, i: int) -> bool {
    i + 4 <= s.len() && is_hex_digit(s[i]) && is_hex_digit(s[i + 1]) && is_hex_digit(s[i + 2])
        && is_hex_digit(s[i + 3])
}

fn parse_hex4(s: &Vec<u8>, i: usize) -> (r: Option<u32>)
    requires
        i + 4 <= s@.len(),
        s@.len() <= usize::MAX,
    ensures
        match r {
            Some(v) => hex4_ok(s@, i as int) && v == hex4_val(s@, i as int) && v <= 0xFFFF,
            None => !hex4_ok(s@, i as int),
        },
{
    let Some(a) = hex_digit_val(s[i]) else { return None };
    let Some(b) = hex_digit_val(s[i + 1]) else { return None };
    let Some(c) = hex_digit_val(s[i + 2]) else { return None };
    let Some(d) = hex_digit_val(s[i + 3]) else { return None };
    Some((a as u32) * 0x1000 + (b as u32) * 0x100 + (c as u32) * 16 + (d as u32))
}

/// Byte named by a single-character escape (the byte after the
/// backslash), if that escape exists.
pub open spec fn esc_code(b: u8) -> Option<u8> {
    if b == 34 {
        Some(34u8)
    } else if b == 92 {
        Some(92u8)
    } else if b == 47 {
        Some(47u8)
    } else if b == 98 {
        Some(8u8)
    } else if b == 102 {
        Some(12u8)
    } else if b == 110 {
        Some(10u8)
    } else if b == 114 {
        Some(13u8)
    } else if b == 116 {
        Some(9u8)
    } else {
        None
    }
}

fn esc_code_exec(b: u8) -> (r: Option<u8>)
    ensures
        r == esc_code(b),
{
    if b == 34 {
        Some(34)
    } else if b == 92 {
        Some(92)
    } else if b == 47 {
        Some(47)
    } else if b == 98 {
        Some(8)
    } else if b == 102 {
        Some(12)
    } else if b == 110 {
        Some(10)
    } else if b == 114 {
        Some(13)
    } else if b == 116 {
        Some(9)
    } else {
        None
    }
}

pub open spec fn compose_content(pre: Seq<u8>, o: Option<(Seq<u8>, int)>) -> Option<
    (Seq<u8>, int),
> {
    match o {
        Some((c, e)) => Some((pre + c, e)),
        None => None,
    }
}

proof fn lemma_compose_assoc(pre1: Seq<u8>, pre2: Seq<u8>, o: Option<(Seq<u8>, int)>)
    ensures
        compose_content(pre1, compose_content(pre2, o)) == compose_content(pre1 + pre2, o),
{
    match o {
        Some((c, e)) => {
            assert(pre1 + (pre2 + c) =~= (pre1 + pre2) + c);
        },
        None => {},
    }
}

pub open spec fn is_high_surrogate(cp: int) -> bool {
    0xD800 <= cp <= 0xDBFF
}

pub open spec fn is_low_surrogate(cp: int) -> bool {
    0xDC00 <= cp <= 0xDFFF
}

pub open spec fn combine_surrogates(hi: int, lo: int) -> int {
    0x10000 + (hi - 0xD800) * 0x400 + (lo - 0xDC00)
}

/// The unescaped bytes of a JSON string, starting just after the
/// opening quote, together with the index after the closing quote.
pub open spec fn str_content(s: Seq<u8>, i: int) -> Option<(Seq<u8>, int)>
    decreases s.len() - i,
{
    if i < 0 || i >= s.len() {
        None
    } else if s[i] == 34 {
        Some((Seq::<u8>::empty(), i + 1))
    } else if s[i] == 92 {
        if i + 1 >= s.len() {
            None
        } else if esc_code(s[i + 1]) is Some {
            compose_content(seq![esc_code(s[i + 1]).unwrap()], str_content(s, i + 2))
        } else if s[i + 1] == 117 {
            if !hex4_ok(s, i + 2) {
                None
            } else {
                let cp = hex4_val(s, i + 2);
                if is_high_surrogate(cp) {
                    if i + 12 <= s.len() && s[i + 6] == 92 && s[i + 7] == 117 && hex4_ok(s, i + 8)
                        && is_low_surrogate(hex4_val(s, i + 8)) {
                        compose_content(
                            encode_scalar(combine_surrogates(cp, hex4_val(s, i + 8)) as u32),
                            str_content(s, i + 12),
                        )
                    } else {
                        None
                    }
                } else if is_low_surrogate(cp) {
                    None
                } else {
                    compose_content(encode_scalar(cp as u32), str_content(s, i + 6))
                }
            }
        } else {
            None
        }
    } else if s[i] < 32 {
        None
    } else {
        compose_content(seq![s[i]], str_content(s, i + 1))
    }
}

pub proof fn lemma_str_content_bounds(s: Seq<u8>, i: int)
    requires
        0 <= i <= s.len(),
    ensures
        match str_content(s, i) {
            Some((c, e)) => i < e <= s.len(),
            None => true,
        },
    decreases s.len() - i,
{
    if i < s.len() {
        if s[i] == 34 {
        } else if s[i] == 92 {
            if i + 1 < s.len() {
                if esc_code(s[i + 1]) is Some {
                    lemma_str_content_bounds(s, i + 2);
                } else if s[i + 1] == 117 && hex4_ok(s, i + 2) {
                    let cp = hex4_val(s, i + 2);
                    if is_high_surrogate(cp) {
                        if i + 12 <= s.len() && s[i + 6] == 92 && s[i + 7] == 117 && hex4_ok(
                            s,
                            i + 8,
                        ) && is_low_surrogate(hex4_val(s, i + 8)) {
                            lemma_str_content_bounds(s, i + 12);
                        }
                    } else if !is_low_surrogate(cp) {
                        lemma_str_content_bounds(s, i + 6);
                    }
                }
            }
        } else if s[i] >= 32 {
            lemma_str_content_bounds(s, i + 1);
        }
    }
}

fn push_scalar(out: &mut Vec<u8>, v: u32)
    requires
        is_scalar(v),
    ensures
        final(out)@ == old(out)@ + encode_scalar(v),
{
    if v <= 0x7F {
        assert((v & 0x7F) <= 0x7F) by (bit_vector);
        out.push((v & 0x7F) as u8);
    } else if v <= 0x7FF {
        assert(((v >> 6) & 0x1F) <= 0x1F) by (bit_vector);
        assert((v & 0x3F) <= 0x3F) by (bit_vector);
        out.push(0xC0 | (((v >> 6) & 0x1F) as u8));
        out.push(0x80 | ((v & 0x3F) as u8));
    } else if v <= 0xFFFF {
        assert(((v >> 12) & 0x0F) <= 0x0F) by (bit_vector);
        assert(((v >> 6) & 0x3F) <= 0x3F) by (bit_vector);
        assert((v & 0x3F) <= 0x3F) by (bit_vector);
        out.push(0xE0 | (((v >> 12) & 0x0F) as u8));
        out.push(0x80 | (((v >> 6) & 0x3F) as u8));
        out.push(0x80 | ((v & 0x3F) as u8));
    } else {
        assert(((v >> 18) & 0x7) <= 0x7) by (bit_vector);
        assert(((v >> 12) & 0x3F) <= 0x3F) by (bit_vector);
        assert(((v >> 6) & 0x3F) <= 0x3F) by (bit_vector);
        assert((v & 0x3F) <= 0x3F) by (bit_vector);
        out.push(0xF0 | (((v >> 18) & 0x7) as u8));
        out.push(0x80 | (((v >> 12) & 0x3F) as u8));
        out.push(0x80 | (((v >> 6) & 0x3F) as u8));
        out.push(0x80 | ((v & 0x3F) as u8));
    }
    assert(final(out)@ =~= old(out)@ + encode_scalar(v));
}

/// Handle one backslash escape at `j` (where `s[j]` is the backslash):
/// the bytes it denotes and the index after it.
#[verifier::rlimit(100)]
fn parse_escape(s: &Vec<u8>, j: usize) -> (r: Option<(Vec<u8>, usize)>)
    requires
        j < s@.len(),
        s@[j as int] == 92,
    ensures
        match r {
            Some((piece, j2)) => str_content(s@, j as int) == compose_content(
                piece@,
                str_content(s@, j2 as int),
            ) && j < j2 <= s@.len(),
            None => str_content(s@, j as int) is None,
        },
{
    let len = s.len();
    let mut piece: Vec<u8> = Vec::new();
    if j + 1 >= len {
        return None;
    }
    let nb = s[j + 1];
    if let Some(c) = esc_code_exec(nb) {
        piece.push(c);
        return Some((piece, j + 2));
    }
    if nb != 117 {
        return None;
    }
    if len - j < 6 {
        return None;
    }
    let Some(cp) = parse_hex4(s, j + 2) else { return None };
    if 0xD800 <= cp && cp <= 0xDBFF {
        if !(len - j >= 12 && s[j + 6] == 92 && s[j + 7] == 117) {
            return None;
        }
        let Some(lo) = parse_hex4(s, j + 8) else { return None };
        if !(0xDC00 <= lo && lo <= 0xDFFF) {
            return None;
        }
        let combined: u32 = 0x10000 + (cp - 0xD800) * 0x400 + (lo - 0xDC00);
        push_scalar(&mut piece, combined);
        return Some((piece, j + 12));
    }
    if 0xDC00 <= cp && cp <= 0xDFFF {
        return None;
    }
    push_scalar(&mut piece, cp);
    Some((piece, j + 6))
}

/// Read a JSON string body beginning just after the opening quote;
/// yields the unescaped bytes and the index after the closing quote.
pub fn parse_str_body(s: &Vec<u8>, i: usize) -> (r: Option<(Vec<u8>, usize)>)
    requires
        i <= s@.len(),
    ensures
        match r {
            Some((v, e)) => str_content(s@, i as int) == Some((v@, e as int)) && i < e <= s@.len(),
            None => str_content(s@, i as int) is None,
        },
{
    let len = s.len();
    let mut out: Vec<u8> = Vec::new();
    let mut j: usize = i;
    loop
        invariant
            i <= j <= len,
            len == s@.len(),
            str_content(s@, i as int) == compose_content(out@, str_content(s@, j as int)),
        decreases len - j,
    {
        proof {
            lemma_str_content_bounds(s@, i as int);
        }
        if j >= len {
            return None;
        }
        let b = s[j];
        if b == 34 {
            assert(str_content(s@, j as int) == Some((Seq::<u8>::empty(), j + 1)));
            assert(out@ + Seq::<u8>::empty() =~= out@);
            return Some((out, j + 1));
        } else if b == 92 {
            let Some((mut piece, j2)) = parse_escape(s, j) else { return None };
            proof {
                lemma_compose_assoc(out@, piece@, str_content(s@, j2 as int));
            }
            out.append(&mut piece);
            j = j2;
        } else if b < 32 {
            return None;
        } else {
            proof {
                lemma_compose_assoc(out@, seq![b], str_content(s@, j as int + 1));
            }
            out.push(b);
            j = j + 1;
        }
    }
}

pub open spec fn true_lit() -> Seq<u8> {
    seq![116u8, 114u8, 117u8, 101u8]
}

pub open spec fn false_lit() -> Seq<u8> {
    seq![102u8, 97u8, 108u8, 115u8, 101u8]
}

pub open spec fn null_lit() -> Seq<u8> {
    seq![110u8, 117u8, 108u8, 108u8]
}

pub open spec fn lit_at(s: Seq<u8>, i: int, l: Seq<u8>) -> bool {
    0 <= i && i + l.len() <= s.len() && s.subrange(i, i + l.len()) == l
}

pub open spec fn num_char(b: u8) -> bool {
    is_json_digit(b) || b == 45 || b == 43 || b == 46 || b == 101 || b == 69
}

/// End of the greedy run of number characters starting at `i`.
pub open spec fn num_end(s: Seq<u8>, i: int) -> int
    decreases s.len() - i,
{
    if i < s.len() && num_char(s[i]) {
        num_end(s, i + 1)
    } else {
        i
    }
}

pub proof fn lemma_num_end_bounds(s: Seq<u8>, i: int)
    requires
        0 <= i <= s.len(),
    ensures
        i <= num_end(s, i) <= s.len(),
    decreases s.len() - i,
{
    if i < s.len() && num_char(s[i]) {
        lemma_num_end_bounds(s, i + 1);
    }
}

/// Index just past the JSON value starting at `i` (no leading
/// whitespace), or nothing when no value starts there.
pub open spec fn spec_skip_value(s: Seq<u8>, i: int) -> Option<int>
    decreases s.len() - i, 0int,
{
    if i < 0 || i >= s.len() {
        None
    } else if s[i] == 34 {
        match str_content(s, i + 1) {
            Some((c, e)) => Some(e),
            None => None,
        }
    } else if s[i] == 123 {
        spec_skip_obj_rest(s, i + 1)
    } else if s[i] == 91 {
        spec_skip_arr_rest(s, i + 1)
    } else if s[i] == 116 || s[i] == 102 || s[i] == 110 {
        spec_skip_lit(s, i)
    } else if is_json_digit(s[i]) || s[i] == 45 {
        Some(num_end(s, i))
    } else {
        None
    }
}

/// Step over one of the literals `true`, `false`, `null` at `i`.
pub open spec fn spec_skip_lit(s: Seq<u8>, i: int) -> Option<int> {
    if 0 <= i < s.len() && s[i] == 116 && lit_at(s, i, true_lit()) {
        Some(i + 4)
    } else if 0 <= i < s.len() && s[i] == 102 && lit_at(s, i, false_lit()) {
        Some(i + 5)
    } else if 0 <= i < s.len() && s[i] == 110 && lit_at(s, i, null_lit()) {
        Some(i + 4)
    } else {
        None
    }
}

/// Skip the rest of an object, `i` standing just after the `{`.
pub open spec fn spec_skip_obj_rest(s: Seq<u8>, i: int) -> Option<int>
    decreases s.len() - i, 2int,
{
    let j = ws_end(s, i);
    if i < 0 || j < i || j >= s.len() {
        None
    } else if s[j] == 125 {
        Some(j + 1)
    } else {
        spec_skip_members(s, j)
    }
}

/// Skip members from the start of a key, up to and past the closing `}`.
pub open spec fn spec_skip_members(s: Seq<u8>, i: int) -> Option<int>
    decreases s.len() - i, 1int,
{
    if i < 0 || i >= s.len() || s[i] != 34 {
        None
    } else {
        match str_content(s, i + 1) {
            None => None,
            Some((k, e)) => {
                let c = ws_end(s, e);
                if e <= i || c < e || c >= s.len() || s[c] != 58 {
                    None
                } else {
                    let v = ws_end(s, c + 1);
                    if v <= i || v > s.len() {
                        None
                    } else {
                        match spec_skip_value(s, v) {
                            None => None,
                            Some(ve) => {
                                let a = ws_end(s, ve);
                                if ve < v || a < ve || a >= s.len() {
                                    None
                                } else if s[a] == 125 {
                                    Some(a + 1)
                                } else if s[a] == 44 {
                                    let k2 = ws_end(s, a + 1);
                                    if k2 <= i || k2 > s.len() {
                                        None
                                    } else {
                                        spec_skip_members(s, k2)
                                    }
                                } else {
                                    None
                                }
                            },
                        }
                    }
                }
            },
        }
    }
}

/// Skip the rest of an array, `i` standing just after the `[`.
pub open spec fn spec_skip_arr_rest(s: Seq<u8>, i: int) -> Option<int>
    decreases s.len() - i, 2int,
{
    let j = ws_end(s, i);
    if i < 0 || j < i || j >= s.len() {
        None
    } else if s[j] == 93 {
        Some(j + 1)
    } else {
        spec_skip_elems(s, j)
    }
}

/// Skip elements from the start of a value, up to and past the closing `]`.
pub open spec fn spec_skip_elems(s: Seq<u8>, i: int) -> Option<int>
    decreases s.len() - i, 1int,
{
    match spec_skip_value(s, i) {
        None => None,
        Some(e) => {
            let a = ws_end(s, e);
            if e <= i || a < e || a >= s.len() {
                None
            } else if s[a] == 93 {
                Some(a + 1)
            } else if s[a] == 44 {
                let k = ws_end(s, a + 1);
                if k <= i || k > s.len() {
                    None
                } else {
                    spec_skip_elems(s, k)
                }
            } else {
                None
            }
        },
    }
}

#[verifier::rlimit(60)]
fn skip_lit(s: &Vec<u8>, i: usize) -> (r: Option<usize>)
    requires
        i < s@.len(),
    ensures
        match r {
            Some(e) => spec_skip_lit(s@, i as int) == Some(e as int) && i < e <= s@.len(),
            None => spec_skip_lit(s@, i as int) is None,
        },
{
    let len = s.len();
    let b = s[i];
    if b == 116 {
        if len - i >= 4 && s[i + 1] == 114 && s[i + 2] == 117 && s[i + 3] == 101 {
            assert(s@.subrange(i as int, i + 4) =~= true_lit());
            Some(i + 4)
        } else {
            proof {
                if i + 4 <= s@.len() && s@.subrange(i as int, i + 4) == true_lit() {
                    assert(s@.subrange(i as int, i + 4)[1] == 114);
                    assert(s@.subrange(i as int, i + 4)[2] == 117);
                    assert(s@.subrange(i as int, i + 4)[3] == 101);
                }
            }
            None
        }
    } else if b == 102 {
        if len - i >= 5 && s[i + 1] == 97 && s[i + 2] == 108 && s[i + 3] == 115 && s[i + 4]
            == 101 {
            assert(s@.subrange(i as int, i + 5) =~= false_lit());
            Some(i + 5)
        } else {
            proof {
                if i + 5 <= s@.len() && s@.subrange(i as int, i + 5) == false_lit() {
                    assert(s@.subrange(i as int, i + 5)[1] == 97);
                    assert(s@.subrange(i as int, i + 5)[2] == 108);
                    assert(s@.subrange(i as int, i + 5)[3] == 115);
                    assert(s@.subrange(i as int, i + 5)[4] == 101);
                }
            }
            None
        }
    } else if b == 110 {
        if len - i >= 4 && s[i + 1] == 117 && s[i + 2] == 108 && s[i + 3] == 108 {
            assert(s@.subrange(i as int, i + 4) =~= null_lit());
            Some(i + 4)
        } else {
            proof {
                if i + 4 <= s@.len() && s@.subrange(i as int, i + 4) == null_lit() {
                    assert(s@.subrange(i as int, i + 4)[1] == 117);
                    assert(s@.subrange(i as int, i + 4)[2] == 108);
                    assert(s@.subrange(i as int, i + 4)[3] == 108);
                }
            }
            None
        }
    } else {
        None
    }
}

fn skip_num(s: &Vec<u8>, i: usize) -> (r: usize)
    requires
        i <= s@.len(),
    ensures
        r == num_end(s@, i as int),
        i <= r <= s@.len(),
    decreases s@.len() - i,
{
    proof {
        lemma_num_end_bounds(s@, i as int);
    }
    if i < s.len() {
        let b = s[i];
        if (48 <= b && b <= 57) || b == 45 || b == 43 || b == 46 || b == 101 || b == 69 {
            return skip_num(s, i + 1);
        }
    }
    i
}

/// Skip past the JSON value starting at `i`.
#[verifier::rlimit(100)]
pub fn skip_value(s: &Vec<u8>, i: usize) -> (r: Option<usize>)
    requires
        i <= s@.len(),
    ensures
        match r {
            Some(e) => spec_skip_value(s@, i as int) == Some(e as int) && i < e <= s@.len(),
            None => spec_skip_value(s@, i as int) is None,
        },
    decreases s@.len() - i, 0int,
{
    let len = s.len();
    if i >= len {
        return None;
    }
    let b = s[i];
    if b == 34 {
        match parse_str_body(s, i + 1) {
            Some((c, e)) => Some(e),
            None => None,
        }
    } else if b == 123 {
        skip_obj_rest(s, i + 1)
    } else if b == 91 {
        skip_arr_rest(s, i + 1)
    } else if b == 116 || b == 102 || b == 110 {
        skip_lit(s, i)
    } else if (48 <= b && b <= 57) || b == 45 {
        let e = skip_num(s, i);
        assert(e > i) by {
            assert(num_char(s@[i as int]));
            lemma_num_end_bounds(s@, i as int + 1);
        }
        Some(e)
    } else {
        None
    }
}

fn skip_obj_rest(s: &Vec<u8>, i: usize) -> (r: Option<usize>)
    requires
        i <= s@.len(),
    ensures
        match r {
            Some(e) => spec_skip_obj_rest(s@, i as int) == Some(e as int) && i <= e <= s@.len(),
            None => spec_skip_obj_rest(s@, i as int) is None,
        },
    decreases s@.len() - i, 2int,
{
    let j = skip_ws(s, i);
    if j >= s.len() {
        return None;
    }
    if s[j] == 125 {
        Some(j + 1)
    } else {
        skip_members(s, j)
    }
}

fn skip_members(s: &Vec<u8>, i: usize) -> (r: Option<usize>)
    requires
        i <= s@.len(),
    ensures
        match r {
            Some(e) => spec_skip_members(s@, i as int) == Some(e as int) && i <= e <= s@.len(),
            None => spec_skip_members(s@, i as int) is None,
        },
    decreases s@.len() - i, 1int,
{
    let len = s.len();
    if i >= len || s[i] != 34 {
        return None;
    }
    let Some((k, e)) = parse_str_body(s, i + 1) else { return None };
    let c = skip_ws(s, e);
    if c >= len || s[c] != 58 {
        return None;
    }
    let v = skip_ws(s, c + 1);
    let Some(ve) = skip_value(s, v) else { return None };
    let a = skip_ws(s, ve);
    if a >= len {
        return None;
    }
    if s[a] == 125 {
        Some(a + 1)
    } else if s[a] == 44 {
        let k2 = skip_ws(s, a + 1);
        skip_members(s, k2)
    } else {
        None
    }
}

fn skip_arr_rest(s: &Vec<u8>, i: usize) -> (r: Option<usize>)
    requires
        i <= s@.len(),
    ensures
        match r {
            Some(e) => spec_skip_arr_rest(s@, i as int) == Some(e as int) && i <= e <= s@.len(),
            None => spec_skip_arr_rest(s@, i as int) is None,
        },
    decreases s@.len() - i, 2int,
{
    let j = skip_ws(s, i);
    if j >= s.len() {
        return None;
    }
    if s[j] == 93 {
        Some(j + 1)
    } else {
        skip_elems(s, j)
    }
}

fn skip_elems(s: &Vec<u8>, i: usize) -> (r: Option<usize>)
    requires
        i <= s@.len(),
    ensures
        match r {
            Some(e) => spec_skip_elems(s@, i as int) == Some(e as int) && i <= e <= s@.len(),
            None => spec_skip_elems(s@, i as int) is None,
        },
    decreases s@.len() - i, 1int,
{
    let len = s.len();
    let Some(e) = skip_value(s, i) else { return None };
    let a = skip_ws(s, e);
    if a >= len {
        return None;
    }
    if s[a] == 93 {
        Some(a + 1)
    } else if s[a] == 44 {
        let k = skip_ws(s, a + 1);
        skip_elems(s, k)
    } else {
        None
    }
}

// ---------------------------------------------------------------------
// Known object shapes of the wire protocol.
// ---------------------------------------------------------------------

/// Spec-level image of a decoded list object: the name still as the
/// raw unescaped bytes of the JSON string.
pub struct ClData {
    pub id: u32,
    pub name: Seq<u8>,
    pub updated_at: CheckvistDate,
    pub task_count: u16,
}

/// Spec-level image of a decoded task object.
pub struct TkData {
    pub id: Option<u32>,
    pub content: Seq<u8>,
    pub position: u16,
    pub parent_id: Option<u32>,
}

pub open spec fn key_id() -> Seq<u8> {
    seq![105u8, 100u8]
}

pub open spec fn key_name() -> Seq<u8> {
    seq![110u8, 97u8, 109u8, 101u8]
}

pub open spec fn key_updated_at() -> Seq<u8> {
    seq![117u8, 112u8, 100u8, 97u8, 116u8, 101u8, 100u8, 95u8, 97u8, 116u8]
}

pub open spec fn key_task_count() -> Seq<u8> {
    seq![116u8, 97u8, 115u8, 107u8, 95u8, 99u8, 111u8, 117u8, 110u8, 116u8]
}

pub open spec fn key_content() -> Seq<u8> {
    seq![99u8, 111u8, 110u8, 116u8, 101u8, 110u8, 116u8]
}

pub open spec fn key_position() -> Seq<u8> {
    seq![112u8, 111u8, 115u8, 105u8, 116u8, 105u8, 111u8, 110u8]
}

pub open spec fn key_parent_id() -> Seq<u8> {
    seq![112u8, 97u8, 114u8, 101u8, 110u8, 116u8, 95u8, 105u8, 100u8]
}

fn is_key_id(k: &Vec<u8>) -> (r: bool)
    ensures
        r == (k@ == key_id()),
{
    let r = k.len() == 2 && k[0] == 105 && k[1] == 100;
    proof {
        if r {
            assert(k@ =~= key_id());
        }
    }
    r
}

fn is_key_name(k: &Vec<u8>) -> (r: bool)
    ensures
        r == (k@ == key_name()),
{
    let r = k.len() == 4 && k[0] == 110 && k[1] == 97 && k[2] == 109 && k[3] == 101;
    proof {
        if r {
            assert(k@ =~= key_name());
        }
    }
    r
}

fn is_key_updated_at(k: &Vec<u8>) -> (r: bool)
    ensures
        r == (k@ == key_updated_at()),
{
    let r = k.len() == 10 && k[0] == 117 && k[1] == 112 && k[2] == 100 && k[3] == 97 && k[4]
        == 116 && k[5] == 101 && k[6] == 100 && k[7] == 95 && k[8] == 97 && k[9] == 116;
    proof {
        if r {
            assert(k@ =~= key_updated_at());
        }
    }
    r
}

fn is_key_task_count(k: &Vec<u8>) -> (r: bool)
    ensures
        r == (k@ == key_task_count()),
{
    let r = k.len() == 10 && k[0] == 116 && k[1] == 97 && k[2] == 115 && k[3] == 107 && k[4] == 95
        && k[5] == 99 && k[6] == 111 && k[7] == 117 && k[8] == 110 && k[9] == 116;
    proof {
        if r {
            assert(k@ =~= key_task_count());
        }
    }
    r
}

fn is_key_content(k: &Vec<u8>) -> (r: bool)
    ensures
        r == (k@ == key_content()),
{
    let r = k.len() == 7 && k[0] == 99 && k[1] == 111 && k[2] == 110 && k[3] == 116 && k[4] == 101
        && k[5] == 110 && k[6] == 116;
    proof {
        if r {
            assert(k@ =~= key_content());
        }
    }
    r
}

fn is_key_position(k: &Vec<u8>) -> (r: bool)
    ensures
        r == (k@ == key_position()),
{
    let r = k.len() == 8 && k[0] == 112 && k[1] == 111 && k[2] == 115 && k[3] == 105 && k[4]
        == 116 && k[5] == 105 && k[6] == 111 && k[7] == 110;
    proof {
        if r {
            assert(k@ =~= key_position());
        }
    }
    r
}

fn is_key_parent_id(k: &Vec<u8>) -> (r: bool)
    ensures
        r == (k@ == key_parent_id()),
{
    let r = k.len() == 9 && k[0] == 112 && k[1] == 97 && k[2] == 114 && k[3] == 101 && k[4] == 110
        && k[5] == 116 && k[6] == 95 && k[7] == 105 && k[8] == 100;
    proof {
        if r {
            assert(k@ =~= key_parent_id());
        }
    }
    r
}

/// Effect of one list-object member on the four field accumulators:
/// the index after the value and the updated accumulators. A known key
/// seen twice, or with a malformed value, refuses the object.
pub open spec fn spec_cl_field(
    s: Seq<u8>,
    v: int,
    key: Seq<u8>,
    id: Option<u32>,
    name: Option<Seq<u8>>,
    up: Option<CheckvistDate>,
    tc: Option<u16>,
) -> Option<(int, Option<u32>, Option<Seq<u8>>, Option<CheckvistDate>, Option<u16>)> {
    if key == key_id() {
        if id is Some {
            None
        } else {
            match spec_parse_u32_at(s, v) {
                Some((n, e)) => Some((e, Some(n), name, up, tc)),
                None => None,
            }
        }
    } else if key == key_name() {
        if name is Some {
            None
        } else if 0 <= v < s.len() && s[v] == 34 {
            match str_content(s, v + 1) {
                Some((c, e)) => Some((e, id, Some(c), up, tc)),
                None => None,
            }
        } else {
            None
        }
    } else if key == key_updated_at() {
        if up is Some {
            None
        } else if 0 <= v < s.len() && s[v] == 34 {
            match str_content(s, v + 1) {
                Some((c, e)) => match spec_parse_date(c) {
                    Some(d) => Some((e, id, name, Some(d), tc)),
                    None => None,
                },
                None => None,
            }
        } else {
            None
        }
    } else if key == key_task_count() {
        if tc is Some {
            None
        } else {
            match spec_parse_u32_at(s, v) {
                Some((n, e)) => if n <= u16::MAX {
                    Some((e, id, name, up, Some(n as u16)))
                } else {
                    None
                },
                None => None,
            }
        }
    } else {
        match spec_skip_value(s, v) {
            Some(e) => Some((e, id, name, up, tc)),
            None => None,
        }
    }
}

/// Key and value position of the object member starting at `i`: the
/// key's unescaped bytes and the index where the value begins.
pub open spec fn spec_member_key(s: Seq<u8>, i: int) -> Option<(Seq<u8>, int)> {
    if i < 0 || i >= s.len() || s[i] != 34 {
        None
    } else {
        match str_content(s, i + 1) {
            None => None,
            Some((key, e)) => {
                let c = ws_end(s, e);
                if e <= i || c < e || c >= s.len() || s[c] != 58 {
                    None
                } else {
                    let v = ws_end(s, c + 1);
                    if v <= i || v > s.len() {
                        None
                    } else {
                        Some((key, v))
                    }
                }
            },
        }
    }
}

/// What follows a member whose value ends at `ve`: `(true, j)` when the
/// object closes with `j` past the brace, `(false, j)` when a comma
/// leads to the next key at `j`.
pub open spec fn spec_member_after(s: Seq<u8>, i: int, ve: int) -> Option<(bool, int)> {
    let a = ws_end(s, ve);
    if ve < 0 || a < ve || a >= s.len() {
        None
    } else if s[a] == 125 {
        Some((true, a + 1))
    } else if s[a] == 44 {
        let k = ws_end(s, a + 1);
        if k <= i || k > s.len() {
            None
        } else {
            Some((false, k))
        }
    } else {
        None
    }
}

/// Members of a list object from the start of a key to past the
/// closing brace; all four fields must have appeared exactly once.
pub open spec fn spec_cl_members(
    s: Seq<u8>,
    i: int,
    id: Option<u32>,
    name: Option<Seq<u8>>,
    up: Option<CheckvistDate>,
    tc: Option<u16>,
) -> Option<(ClData, int)>
    decreases s.len() - i,
{
    match spec_member_key(s, i) {
        None => None,
        Some((key, v)) => if v <= i {
            None
        } else {
            match spec_cl_field(s, v, key, id, name, up, tc) {
                None => None,
                Some((ve, id2, name2, up2, tc2)) => if ve < v {
                    None
                } else {
                    match spec_member_after(s, i, ve) {
                        None => None,
                        Some((true, n)) => match (id2, name2, up2, tc2) {
                            (Some(i2), Some(n2), Some(u2), Some(t2)) => Some(
                                (ClData { id: i2, name: n2, updated_at: u2, task_count: t2 }, n),
                            ),
                            _ => None,
                        },
                        Some((false, k)) => if k <= i || k > s.len() {
                            None
                        } else {
                            spec_cl_members(s, k, id2, name2, up2, tc2)
                        },
                    }
                },
            }
        },
    }
}

/// A list object starting at `i` (at the opening brace).
pub open spec fn spec_parse_checklist_at(s: Seq<u8>, i: int) -> Option<(ClData, int)> {
    if 0 <= i < s.len() && s[i] == 123 {
        let j = ws_end(s, i + 1);
        if j < i + 1 || j > s.len() {
            None
        } else {
            spec_cl_members(s, j, None, None, None, None)
        }
    } else {
        None
    }
}

pub open spec fn opt_bytes(o: Option<Vec<u8>>) -> Option<Seq<u8>> {
    match o {
        Some(v) => Some(v@),
        None => None,
    }
}

/// A decoded `Checklist` agrees with the spec-level image of the
/// object: same fields, the name being the UTF-8 reading of the bytes.
pub open spec fn cl_matches(c: Checklist, d: ClData) -> bool {
    &&& c.id == d.id
    &&& valid_utf8(d.name)
    &&& c.name@ == decode_utf8(d.name)
    &&& c.updated_at == d.updated_at
    &&& c.task_count == d.task_count
}

/// Relies on std's `String::from_utf8`: it succeeds exactly on valid
/// UTF-8 and yields the string whose characters are those bytes decoded.
#[verifier::external_body]
pub(crate) fn string_from_utf8(v: Vec<u8>) -> (r: Option<String>)
    ensures
        match r {
            Some(st) => valid_utf8(v@) && st@ == decode_utf8(v@),
            None => !valid_utf8(v@),
        },
{
    String::from_utf8(v).ok()
}

#[verifier::rlimit(60)]
fn parse_cl_field(
    s: &Vec<u8>,
    v: usize,
    key: &Vec<u8>,
    id: Option<u32>,
    name: Option<Vec<u8>>,
    up: Option<CheckvistDate>,
    tc: Option<u16>,
) -> (r: Option<(usize, Option<u32>, Option<Vec<u8>>, Option<CheckvistDate>, Option<u16>)>)
    requires
        v <= s@.len(),
    ensures
        match r {
            Some((ve, id2, name2, up2, tc2)) => spec_cl_field(
                s@,
                v as int,
                key@,
                id,
                opt_bytes(name),
                up,
                tc,
            ) == Some((ve as int, id2, opt_bytes(name2), up2, tc2)) && ve <= s@.len(),
            None => spec_cl_field(s@, v as int, key@, id, opt_bytes(name), up, tc) is None,
        },
{
    let len = s.len();
    if is_key_id(key) {
        if id.is_some() {
            return None;
        }
        let Some((n, e2)) = parse_u32_at(s, v) else { return None };
        Some((e2, Some(n), name, up, tc))
    } else if is_key_name(key) {
        if name.is_some() {
            return None;
        }
        if !(v < len && s[v] == 34) {
            return None;
        }
        let Some((cbytes, e2)) = parse_str_body(s, v + 1) else { return None };
        Some((e2, id, Some(cbytes), up, tc))
    } else if is_key_updated_at(key) {
        if up.is_some() {
            return None;
        }
        if !(v < len && s[v] == 34) {
            return None;
        }
        let Some((cbytes, e2)) = parse_str_body(s, v + 1) else { return None };
        let Some(d) = parse_date(&cbytes) else { return None };
        Some((e2, id, name, Some(d), tc))
    } else if is_key_task_count(key) {
        if tc.is_some() {
            return None;
        }
        let Some((n, e2)) = parse_u32_at(s, v) else { return None };
        if n > 0xFFFF {
            return None;
        }
        Some((e2, id, name, up, Some(n as u16)))
    } else {
        let Some(e2) = skip_value(s, v) else { return None };
        Some((e2, id, name, up, tc))
    }
}

fn parse_member_key(s: &Vec<u8>, i: usize) -> (r: Option<(Vec<u8>, usize)>)
    requires
        i <= s@.len(),
    ensures
        match r {
            Some((key, v)) => spec_member_key(s@, i as int) == Some((key@, v as int)) && i < v
                <= s@.len(),
            None => spec_member_key(s@, i as int) is None,
        },
{
    let len = s.len();
    if i >= len || s[i] != 34 {
        return None;
    }
    let Some((key, e)) = parse_str_body(s, i + 1) else { return None };
    let c = skip_ws(s, e);
    if c >= len || s[c] != 58 {
        return None;
    }
    let v = skip_ws(s, c + 1);
    Some((key, v))
}

fn parse_member_after(s: &Vec<u8>, i: usize, ve: usize) -> (r: Option<(bool, usize)>)
    requires
        i <= s@.len(),
        ve <= s@.len(),
    ensures
        match r {
            Some((cl, j)) => spec_member_after(s@, i as int, ve as int) == Some((cl, j as int))
                && j <= s@.len() && (!cl ==> i < j),
            None => spec_member_after(s@, i as int, ve as int) is None,
        },
{
    let len = s.len();
    let a = skip_ws(s, ve);
    if a >= len {
        return None;
    }
    if s[a] == 125 {
        Some((true, a + 1))
    } else if s[a] == 44 {
        let k = skip_ws(s, a + 1);
        if k <= i {
            return None;
        }
        Some((false, k))
    } else {
        None
    }
}

fn parse_cl_members(
    s: &Vec<u8>,
    i: usize,
    id: Option<u32>,
    name: Option<Vec<u8>>,
    up: Option<CheckvistDate>,
    tc: Option<u16>,
) -> (r: Option<(u32, Vec<u8>, CheckvistDate, u16, usize)>)
    requires
        i <= s@.len(),
    ensures
        match r {
            Some((i2, n2, u2, t2, e)) => spec_cl_members(s@, i as int, id, opt_bytes(name), up, tc)
                == Some(
                (ClData { id: i2, name: n2@, updated_at: u2, task_count: t2 }, e as int),
            ) && e <= s@.len(),
            None => spec_cl_members(s@, i as int, id, opt_bytes(name), up, tc) is None,
        },
    decreases s@.len() - i,
{
    let Some((key, v)) = parse_member_key(s, i) else { return None };
    let Some((ve, id2, name2, up2, tc2)) = parse_cl_field(s, v, &key, id, name, up, tc) else {
        return None;
    };
    if ve < v {
        return None;
    }
    let Some((closed, j)) = parse_member_after(s, i, ve) else { return None };
    if closed {
        match (id2, name2, up2, tc2) {
            (Some(i2), Some(n2), Some(u2), Some(t2)) => Some((i2, n2, u2, t2, j)),
            _ => None,
        }
    } else {
        parse_cl_members(s, j, id2, name2, up2, tc2)
    }
}

/// Decode one list object at `i`: the `Checklist` and the index after
/// its closing brace.
pub fn parse_checklist_at(s: &Vec<u8>, i: usize) -> (r: Option<(Checklist, usize)>)
    requires
        i <= s@.len(),
    ensures
        match spec_parse_checklist_at(s@, i as int) {
            Some((d, e)) => match r {
                Some((cl, e2)) => e2 == e && cl_matches(cl, d) && e2 <= s@.len(),
                None => !valid_utf8(d.name),
            },
            None => r is None,
        },
{
    let len = s.len();
    if !(i < len && s[i] == 123) {
        return None;
    }
    let j = skip_ws(s, i + 1);
    let Some((i2, n2, u2, t2, e)) = parse_cl_members(s, j, None, None, None, None) else {
        return None;
    };
    let ghost nbytes = n2@;
    let Some(name) = string_from_utf8(n2) else { return None };
    Some((Checklist { id: i2, name, updated_at: u2, task_count: t2 }, e))
}

pub open spec fn flat_opt(o: Option<Option<u32>>) -> Option<u32> {
    match o {
        Some(x) => x,
        None => None,
    }
}

/// Effect of one task-object member on the accumulators. `id` and
/// `parent_id` may be numbers or `null`; the outer option records
/// whether the key has been seen.
pub open spec fn spec_task_field(
    s: Seq<u8>,
    v: int,
    key: Seq<u8>,
    id: Option<Option<u32>>,
    content: Option<Seq<u8>>,
    pos: Option<u16>,
    parent: Option<Option<u32>>,
) -> Option<(int, Option<Option<u32>>, Option<Seq<u8>>, Option<u16>, Option<Option<u32>>)> {
    if key == key_id() {
        if id is Some {
            None
        } else if 0 <= v < s.len() && s[v] == 110 {
            if lit_at(s, v, null_lit()) {
                Some((v + 4, Some(None), content, pos, parent))
            } else {
                None
            }
        } else {
            match spec_parse_u32_at(s, v) {
                Some((n, e)) => Some((e, Some(Some(n)), content, pos, parent)),
                None => None,
            }
        }
    } else if key == key_content() {
        if content is Some {
            None
        } else if 0 <= v < s.len() && s[v] == 34 {
            match str_content(s, v + 1) {
                Some((c, e)) => Some((e, id, Some(c), pos, parent)),
                None => None,
            }
        } else {
            None
        }
    } else if key == key_position() {
        if pos is Some {
            None
        } else {
            match spec_parse_u32_at(s, v) {
                Some((n, e)) => if n <= u16::MAX {
                    Some((e, id, content, Some(n as u16), parent))
                } else {
                    None
                },
                None => None,
            }
        }
    } else if key == key_parent_id() {
        if parent is Some {
            None
        } else if 0 <= v < s.len() && s[v] == 110 {
            if lit_at(s, v, null_lit()) {
                Some((v + 4, id, content, pos, Some(None)))
            } else {
                None
            }
        } else {
            match spec_parse_u32_at(s, v) {
                Some((n, e)) => Some((e, id, content, pos, Some(Some(n)))),
                None => None,
            }
        }
    } else {
        match spec_skip_value(s, v) {
            Some(e) => Some((e, id, content, pos, parent)),
            None => None,
        }
    }
}

/// Members of a task object; `content` and `position` must appear,
/// `id` and `parent_id` default to absent.
pub open spec fn spec_task_members(
    s: Seq<u8>,
    i: int,
    id: Option<Option<u32>>,
    content: Option<Seq<u8>>,
    pos: Option<u16>,
    parent: Option<Option<u32>>,
) -> Option<(TkData, int)>
    decreases s.len() - i,
{
    match spec_member_key(s, i) {
        None => None,
        Some((key, v)) => if v <= i {
            None
        } else {
            match spec_task_field(s, v, key, id, content, pos, parent) {
                None => None,
                Some((ve, id2, content2, pos2, parent2)) => if ve < v {
                    None
                } else {
                    match spec_member_after(s, i, ve) {
                        None => None,
                        Some((true, n)) => match (content2, pos2) {
                            (Some(c2), Some(p2)) => Some(
                                (
                                    TkData {
                                        id: flat_opt(id2),
                                        content: c2,
                                        position: p2,
                                        parent_id: flat_opt(parent2),
                                    },
                                    n,
                                ),
                            ),
                            _ => None,
                        },
                        Some((false, k)) => if k <= i || k > s.len() {
                            None
                        } else {
                            spec_task_members(s, k, id2, content2, pos2, parent2)
                        },
                    }
                },
            }
        },
    }
}

/// A task object starting at `i` (at the opening brace).
pub open spec fn spec_parse_task_at(s: Seq<u8>, i: int) -> Option<(TkData, int)> {
    if 0 <= i < s.len() && s[i] == 123 {
        let j = ws_end(s, i + 1);
        if j < i + 1 || j > s.len() {
            None
        } else {
            spec_task_members(s, j, None, None, None, None)
        }
    } else {
        None
    }
}

/// Effect of one member of an object read only for the string field
/// named `want`; every other member is skipped.
pub open spec fn spec_sf_field(
    s: Seq<u8>,
    v: int,
    key: Seq<u8>,
    want: Seq<u8>,
    acc: Option<Seq<u8>>,
) -> Option<(int, Option<Seq<u8>>)> {
    if key == want {
        if acc is Some {
            None
        } else if 0 <= v < s.len() && s[v] == 34 {
            match str_content(s, v + 1) {
                Some((c, e)) => Some((e, Some(c))),
                None => None,
            }
        } else {
            None
        }
    } else {
        match spec_skip_value(s, v) {
            Some(e) => Some((e, acc)),
            None => None,
        }
    }
}

/// Members of an object read only for the string field named `want`,
/// which must appear exactly once.
pub open spec fn spec_sf_members(s: Seq<u8>, i: int, want: Seq<u8>, acc: Option<Seq<u8>>) -> Option<
    (Seq<u8>, int),
>
    decreases s.len() - i,
{
    match spec_member_key(s, i) {
        None => None,
        Some((key, v)) => if v <= i {
            None
        } else {
            match spec_sf_field(s, v, key, want, acc) {
                None => None,
                Some((ve, acc2)) => if ve < v {
                    None
                } else {
                    match spec_member_after(s, i, ve) {
                        None => None,
                        Some((true, n)) => match acc2 {
                            Some(c) => Some((c, n)),
                            None => None,
                        },
                        Some((false, k)) => if k <= i || k > s.len() {
                            None
                        } else {
                            spec_sf_members(s, k, want, acc2)
                        },
                    }
                },
            }
        },
    }
}

/// An object starting at `i` read only for the string field `want`.
pub open spec fn spec_parse_sf_at(s: Seq<u8>, i: int, want: Seq<u8>) -> Option<(Seq<u8>, int)> {
    if 0 <= i < s.len() && s[i] == 123 {
        let j = ws_end(s, i + 1);
        if j < i + 1 || j > s.len() {
            None
        } else {
            spec_sf_members(s, j, want, None)
        }
    } else {
        None
    }
}

#[verifier::rlimit(100)]
#[verifier::spinoff_prover]
fn parse_task_field(
    s: &Vec<u8>,
    v: usize,
    key: &Vec<u8>,
    id: Option<Option<u32>>,
    content: Option<Vec<u8>>,
    pos: Option<u16>,
    parent: Option<Option<u32>>,
) -> (r: Option<(usize, Option<Option<u32>>, Option<Vec<u8>>, Option<u16>, Option<Option<u32>>)>)
    requires
        v <= s@.len(),
    ensures
        match r {
            Some((ve, id2, content2, pos2, parent2)) => spec_task_field(
                s@,
                v as int,
                key@,
                id,
                opt_bytes(content),
                pos,
                parent,
            ) == Some((ve as int, id2, opt_bytes(content2), pos2, parent2)) && ve <= s@.len(),
            None => spec_task_field(s@, v as int, key@, id, opt_bytes(content), pos, parent)
                is None,
        },
{
    let len = s.len();
    if is_key_id(key) {
        if id.is_some() {
            return None;
        }
        if v < len && s[v] == 110 {
            let Some(e2) = skip_lit(s, v) else { return None };
            if !(len - v >= 4 && s[v + 1] == 117) {
                return None;
            }
            Some((e2, Some(None), content, pos, parent))
        } else {
            let Some((n, e2)) = parse_u32_at(s, v) else { return None };
            Some((e2, Some(Some(n)), content, pos, parent))
        }
    } else if is_key_content(key) {
        if content.is_some() {
            return None;
        }
        if !(v < len && s[v] == 34) {
            return None;
        }
        let Some((cbytes, e2)) = parse_str_body(s, v + 1) else { return None };
        Some((e2, id, Some(cbytes), pos, parent))
    } else if is_key_position(key) {
        if pos.is_some() {
            return None;
        }
        let Some((n, e2)) = parse_u32_at(s, v) else { return None };
        if n > 0xFFFF {
            return None;
        }
        Some((e2, id, content, Some(n as u16), parent))
    } else if is_key_parent_id(key) {
        if parent.is_some() {
            return None;
        }
        if v < len && s[v] == 110 {
            let Some(e2) = skip_lit(s, v) else { return None };
            if !(len - v >= 4 && s[v + 1] == 117) {
                return None;
            }
            Some((e2, id, content, pos, Some(None)))
        } else {
            let Some((n, e2)) = parse_u32_at(s, v) else { return None };
            Some((e2, id, content, pos, Some(Some(n))))
        }
    } else {
        let Some(e2) = skip_value(s, v) else { return None };
        Some((e2, id, content, pos, parent))
    }
}

fn parse_task_members(
    s: &Vec<u8>,
    i: usize,
    id: Option<Option<u32>>,
    content: Option<Vec<u8>>,
    pos: Option<u16>,
    parent: Option<Option<u32>>,
) -> (r: Option<(Option<u32>, Vec<u8>, u16, Option<u32>, usize)>)
    requires
        i <= s@.len(),
    ensures
        match r {
            Some((i2, c2, p2, pa2, e)) => spec_task_members(
                s@,
                i as int,
                id,
                opt_bytes(content),
                pos,
                parent,
            ) == Some((TkData { id: i2, content: c2@, position: p2, parent_id: pa2 }, e as int))
                && e <= s@.len(),
            None => spec_task_members(s@, i as int, id, opt_bytes(content), pos, parent) is None,
        },
    decreases s@.len() - i,
{
    let Some((key, v)) = parse_member_key(s, i) else { return None };
    let Some((ve, id2, content2, pos2, parent2)) = parse_task_field(
        s,
        v,
        &key,
        id,
        content,
        pos,
        parent,
    ) else { return None };
    if ve < v {
        return None;
    }
    let Some((closed, j)) = parse_member_after(s, i, ve) else { return None };
    if closed {
        match (content2, pos2) {
            (Some(c2), Some(p2)) => {
                let idf = match id2 {
                    Some(x) => x,
                    None => None,
                };
                let paf = match parent2 {
                    Some(x) => x,
                    None => None,
                };
                Some((idf, c2, p2, paf, j))
            },
            _ => None,
        }
    } else {
        parse_task_members(s, j, id2, content2, pos2, parent2)
    }
}

fn parse_sf_members(s: &Vec<u8>, i: usize, want: &Vec<u8>, acc: Option<Vec<u8>>) -> (r: Option<
    (Vec<u8>, usize),
>)
    requires
        i <= s@.len(),
    ensures
        match r {
            Some((c, e)) => spec_sf_members(s@, i as int, want@, opt_bytes(acc)) == Some(
                (c@, e as int),
            ) && e <= s@.len(),
            None => spec_sf_members(s@, i as int, want@, opt_bytes(acc)) is None,
        },
    decreases s@.len() - i,
{
    let Some((key, v)) = parse_member_key(s, i) else { return None };
    let len = s.len();
    let mut acc2 = acc;
    let ve: usize;
    if vec_u8_eq(&key, want) {
        if acc2.is_some() {
            return None;
        }
        if !(v < len && s[v] == 34) {
            return None;
        }
        let Some((cbytes, e2)) = parse_str_body(s, v + 1) else { return None };
        acc2 = Some(cbytes);
        ve = e2;
    } else {
        let Some(e2) = skip_value(s, v) else { return None };
        ve = e2;
    }
    if ve < v {
        return None;
    }
    let Some((closed, j)) = parse_member_after(s, i, ve) else { return None };
    if closed {
        match acc2 {
            Some(c) => Some((c, j)),
            None => None,
        }
    } else {
        parse_sf_members(s, j, want, acc2)
    }
}

fn vec_u8_eq(a: &Vec<u8>, b: &Vec<u8>) -> (r: bool)
    ensures
        r == (a@ == b@),
{
    if a.len() != b.len() {
        return false;
    }
    let n = a.len();
    let mut i: usize = 0;
    while i < n
        invariant
            n == a@.len() == b@.len(),
            i <= n,
            forall|k: int| 0 <= k < i ==> a@[k] == b@[k],
        decreases n - i,
    {
        if a[i] != b[i] {
            return false;
        }
        i = i + 1;
    }
    assert(a@ =~= b@);
    true
}

/// Decode one task object at `i`.
pub fn parse_task_at(s: &Vec<u8>, i: usize) -> (r: Option<(Task, usize)>)
    requires
        i <= s@.len(),
    ensures
        match spec_parse_task_at(s@, i as int) {
            Some((d, e)) => match r {
                Some((t, e2)) => e2 == e && tk_matches(t, d) && e2 <= s@.len(),
                None => !valid_utf8(d.content),
            },
            None => r is None,
        },
{
    let len = s.len();
    if !(i < len && s[i] == 123) {
        return None;
    }
    let j = skip_ws(s, i + 1);
    let Some((idf, c2, p2, paf, e)) = parse_task_members(s, j, None, None, None, None) else {
        return None;
    };
    let Some(content) = string_from_utf8(c2) else { return None };
    Some((Task { id: idf, content, position: p2, parent_id: paf }, e))
}

/// A decoded `Task` agrees with the spec-level image of the object.
pub open spec fn tk_matches(t: Task, d: TkData) -> bool {
    &&& t.id == d.id
    &&& valid_utf8(d.content)
    &&& t.content@ == decode_utf8(d.content)
    &&& t.position == d.position
    &&& t.parent_id == d.parent_id
}

// ---------------------------------------------------------------------
// Arrays and whole documents.
// ---------------------------------------------------------------------

pub open spec fn cl_seq_matches(v: Seq<Checklist>, ds: Seq<ClData>) -> bool {
    v.len() == ds.len() && forall|k: int| 0 <= k < ds.len() ==> cl_matches(#[trigger] v[k], ds[k])
}

pub open spec fn tk_seq_matches(v: Seq<Task>, ds: Seq<TkData>) -> bool {
    v.len() == ds.len() && forall|k: int| 0 <= k < ds.len() ==> tk_matches(#[trigger] v[k], ds[k])
}

/// Elements of a list array from the start of one object to past the
/// closing bracket, appended to `acc`.
pub open spec fn spec_cl_elems(s: Seq<u8>, i: int, acc: Seq<ClData>) -> Option<(Seq<ClData>, int)>
    decreases s.len() - i,
{
    match spec_parse_checklist_at(s, i) {
        None => None,
        Some((d, e)) => {
            let a = ws_end(s, e);
            if e <= i || a < e || a >= s.len() {
                None
            } else if s[a] == 93 {
                Some((acc.push(d), a + 1))
            } else if s[a] == 44 {
                let k = ws_end(s, a + 1);
                if k <= i || k > s.len() {
                    None
                } else {
                    spec_cl_elems(s, k, acc.push(d))
                }
            } else {
                None
            }
        },
    }
}

/// A whole array of list objects starting at `i`.
pub open spec fn spec_cl_array_at(s: Seq<u8>, i: int) -> Option<(Seq<ClData>, int)> {
    if 0 <= i < s.len() && s[i] == 91 {
        let j = ws_end(s, i + 1);
        if j < i + 1 || j > s.len() {
            None
        } else if j < s.len() && s[j] == 93 {
            Some((Seq::<ClData>::empty(), j + 1))
        } else {
            spec_cl_elems(s, j, Seq::<ClData>::empty())
        }
    } else {
        None
    }
}

proof fn lemma_cl_elems_prefix(s: Seq<u8>, i: int, acc: Seq<ClData>)
    ensures
        match spec_cl_elems(s, i, acc) {
            Some((ds, e)) => ds.len() >= acc.len() && forall|j: int|
                0 <= j < acc.len() ==> ds[j] == acc[j],
            None => true,
        },
    decreases s.len() - i,
{
    match spec_parse_checklist_at(s, i) {
        None => {},
        Some((d, e)) => {
            let a = ws_end(s, e);
            if e <= i || a < e || a >= s.len() {
            } else if s[a] == 93 {
            } else if s[a] == 44 {
                let k = ws_end(s, a + 1);
                if k <= i || k > s.len() {
                } else {
                    lemma_cl_elems_prefix(s, k, acc.push(d));
                }
            }
        },
    }
}

proof fn lemma_cl_elems_head(s: Seq<u8>, i: int, acc: Seq<ClData>)
    ensures
        match spec_parse_checklist_at(s, i) {
            Some((d, e)) => match spec_cl_elems(s, i, acc) {
                Some((ds, e2)) => ds.len() > acc.len() && ds[acc.len() as int] == d,
                None => true,
            },
            None => spec_cl_elems(s, i, acc) is None,
        },
{
    match spec_parse_checklist_at(s, i) {
        Some((d, e)) => {
            let a = ws_end(s, e);
            if e <= i || a < e || a >= s.len() {
            } else if s[a] == 93 {
            } else if s[a] == 44 {
                let k = ws_end(s, a + 1);
                if k <= i || k > s.len() {
                } else {
                    lemma_cl_elems_prefix(s, k, acc.push(d));
                }
            }
        },
        None => {},
    }
}

#[verifier::rlimit(100)]
#[verifier::spinoff_prover]
fn parse_cl_elems(s: &Vec<u8>, i: usize, acc: Vec<Checklist>, ds0: Ghost<Seq<ClData>>) -> (r:
    Option<(Vec<Checklist>, usize)>)
    requires
        i <= s@.len(),
        cl_seq_matches(acc@, ds0@),
    ensures
        match spec_cl_elems(s@, i as int, ds0@) {
            Some((ds, e)) => match r {
                Some((v2, e2)) => e2 == e && cl_seq_matches(v2@, ds) && e2 <= s@.len(),
                None => exists|k: int| 0 <= k < ds.len() && !valid_utf8(#[trigger] ds[k].name),
            },
            None => r is None,
        },
    decreases s@.len() - i,
{
    let ghost spec_head = spec_parse_checklist_at(s@, i as int);
    let head = parse_checklist_at(s, i);
    let Some((cl, e)) = head else {
        proof {
            lemma_cl_elems_head(s@, i as int, ds0@);
            if spec_head is Some && spec_cl_elems(s@, i as int, ds0@) is Some {
                let (ds, e2) = spec_cl_elems(s@, i as int, ds0@).unwrap();
                assert(0 <= ds0@.len() < ds.len() && !valid_utf8(ds[ds0@.len() as int].name));
            }
        }
        return None;
    };
    if e <= i {
        return None;
    }
    let mut acc2 = acc;
    acc2.push(cl);
    let ghost d = spec_head.unwrap().0;
    let ghost ds2 = ds0@.push(d);
    assert(cl_seq_matches(acc2@, ds2)) by {
        assert forall|k: int| 0 <= k < ds2.len() implies cl_matches(#[trigger] acc2@[k], ds2[k]) by {
            if k < ds0@.len() {
                assert(cl_matches(acc@[k], ds0@[k]));
            }
        }
    }
    let a = skip_ws(s, e);
    if a >= s.len() {
        return None;
    }
    if s[a] == 93 {
        Some((acc2, a + 1))
    } else if s[a] == 44 {
        let k = skip_ws(s, a + 1);
        if k <= i {
            return None;
        }
        let r2 = parse_cl_elems(s, k, acc2, Ghost(ds2));
        proof {
            if r2 is None && spec_cl_elems(s@, i as int, ds0@) is Some {
                let (ds, e2) = spec_cl_elems(s@, i as int, ds0@).unwrap();
            }
        }
        r2
    } else {
        None
    }
}

/// Elements of a task array, appended to `acc`.
pub open spec fn spec_task_elems(s: Seq<u8>, i: int, acc: Seq<TkData>) -> Option<
    (Seq<TkData>, int),
>
    decreases s.len() - i,
{
    match spec_parse_task_at(s, i) {
        None => None,
        Some((d, e)) => {
            let a = ws_end(s, e);
            if e <= i || a < e || a >= s.len() {
                None
            } else if s[a] == 93 {
                Some((acc.push(d), a + 1))
            } else if s[a] == 44 {
                let k = ws_end(s, a + 1);
                if k <= i || k > s.len() {
                    None
                } else {
                    spec_task_elems(s, k, acc.push(d))
                }
            } else {
                None
            }
        },
    }
}

/// A whole array of task objects starting at `i`.
pub open spec fn spec_task_array_at(s: Seq<u8>, i: int) -> Option<(Seq<TkData>, int)> {
    if 0 <= i < s.len() && s[i] == 91 {
        let j = ws_end(s, i + 1);
        if j < i + 1 || j > s.len() {
            None
        } else if j < s.len() && s[j] == 93 {
            Some((Seq::<TkData>::empty(), j + 1))
        } else {
            spec_task_elems(s, j, Seq::<TkData>::empty())
        }
    } else {
        None
    }
}

proof fn lemma_task_elems_prefix(s: Seq<u8>, i: int, acc: Seq<TkData>)
    ensures
        match spec_task_elems(s, i, acc) {
            Some((ds, e)) => ds.len() >= acc.len() && forall|j: int|
                0 <= j < acc.len() ==> ds[j] == acc[j],
            None => true,
        },
    decreases s.len() - i,
{
    match spec_parse_task_at(s, i) {
        None => {},
        Some((d, e)) => {
            let a = ws_end(s, e);
            if e <= i || a < e || a >= s.len() {
            } else if s[a] == 93 {
            } else if s[a] == 44 {
                let k = ws_end(s, a + 1);
                if k <= i || k > s.len() {
                } else {
                    lemma_task_elems_prefix(s, k, acc.push(d));
                }
            }
        },
    }
}

proof fn lemma_task_elems_head(s: Seq<u8>, i: int, acc: Seq<TkData>)
    ensures
        match spec_parse_task_at(s, i) {
            Some((d, e)) => match spec_task_elems(s, i, acc) {
                Some((ds, e2)) => ds.len() > acc.len() && ds[acc.len() as int] == d,
                None => true,
            },
            None => spec_task_elems(s, i, acc) is None,
        },
{
    match spec_parse_task_at(s, i) {
        Some((d, e)) => {
            let a = ws_end(s, e);
            if e <= i || a < e || a >= s.len() {
            } else if s[a] == 93 {
            } else if s[a] == 44 {
                let k = ws_end(s, a + 1);
                if k <= i || k > s.len() {
                } else {
                    lemma_task_elems_prefix(s, k, acc.push(d));
                }
            }
        },
        None => {},
    }
}

#[verifier::rlimit(100)]
#[verifier::spinoff_prover]
fn parse_task_elems(s: &Vec<u8>, i: usize, acc: Vec<Task>, ds0: Ghost<Seq<TkData>>) -> (r: Option<
    (Vec<Task>, usize),
>)
    requires
        i <= s@.len(),
        tk_seq_matches(acc@, ds0@),
    ensures
        match spec_task_elems(s@, i as int, ds0@) {
            Some((ds, e)) => match r {
                Some((v2, e2)) => e2 == e && tk_seq_matches(v2@, ds) && e2 <= s@.len(),
                None => exists|k: int| 0 <= k < ds.len() && !valid_utf8(#[trigger] ds[k].content),
            },
            None => r is None,
        },
    decreases s@.len() - i,
{
    let ghost spec_head = spec_parse_task_at(s@, i as int);
    let head = parse_task_at(s, i);
    let Some((tk, e)) = head else {
        proof {
            lemma_task_elems_head(s@, i as int, ds0@);
            if spec_head is Some && spec_task_elems(s@, i as int, ds0@) is Some {
                let (ds, e2) = spec_task_elems(s@, i as int, ds0@).unwrap();
                assert(0 <= ds0@.len() < ds.len() && !valid_utf8(ds[ds0@.len() as int].content));
            }
        }
        return None;
    };
    if e <= i {
        return None;
    }
    let mut acc2 = acc;
    acc2.push(tk);
    let ghost d = spec_head.unwrap().0;
    let ghost ds2 = ds0@.push(d);
    assert(tk_seq_matches(acc2@, ds2)) by {
        assert forall|k: int| 0 <= k < ds2.len() implies tk_matches(#[trigger] acc2@[k], ds2[k]) by {
            if k < ds0@.len() {
                assert(tk_matches(acc@[k], ds0@[k]));
            }
        }
    }
    let a = skip_ws(s, e);
    if a >= s.len() {
        return None;
    }
    if s[a] == 93 {
        Some((acc2, a + 1))
    } else if s[a] == 44 {
        let k = skip_ws(s, a + 1);
        if k <= i {
            return None;
        }
        parse_task_elems(s, k, acc2, Ghost(ds2))
    } else {
        None
    }
}

/// The whole document is one list object.
pub open spec fn spec_checklist_doc(s: Seq<u8>) -> Option<ClData> {
    let i = ws_end(s, 0);
    if i < 0 || i > s.len() {
        None
    } else {
        match spec_parse_checklist_at(s, i) {
            Some((d, e)) => if 0 <= e <= s.len() && ws_end(s, e) == s.len() {
                Some(d)
            } else {
                None
            },
            None => None,
        }
    }
}

/// The whole document is an array of list objects.
pub open spec fn spec_checklists_doc(s: Seq<u8>) -> Option<Seq<ClData>> {
    let i = ws_end(s, 0);
    if i < 0 || i > s.len() {
        None
    } else {
        match spec_cl_array_at(s, i) {
            Some((ds, e)) => if 0 <= e <= s.len() && ws_end(s, e) == s.len() {
                Some(ds)
            } else {
                None
            },
            None => None,
        }
    }
}

/// The whole document is one task object.
pub open spec fn spec_task_doc(s: Seq<u8>) -> Option<TkData> {
    let i = ws_end(s, 0);
    if i < 0 || i > s.len() {
        None
    } else {
        match spec_parse_task_at(s, i) {
            Some((d, e)) => if 0 <= e <= s.len() && ws_end(s, e) == s.len() {
                Some(d)
            } else {
                None
            },
            None => None,
        }
    }
}

/// The whole document is an array of task objects.
pub open spec fn spec_tasks_doc(s: Seq<u8>) -> Option<Seq<TkData>> {
    let i = ws_end(s, 0);
    if i < 0 || i > s.len() {
        None
    } else {
        match spec_task_array_at(s, i) {
            Some((ds, e)) => if 0 <= e <= s.len() && ws_end(s, e) == s.len() {
                Some(ds)
            } else {
                None
            },
            None => None,
        }
    }
}

/// The whole document is an object holding the string field `want`.
pub open spec fn spec_sf_doc(s: Seq<u8>, want: Seq<u8>) -> Option<Seq<u8>> {
    let i = ws_end(s, 0);
    if i < 0 || i > s.len() {
        None
    } else {
        match spec_parse_sf_at(s, i, want) {
            Some((c, e)) => if 0 <= e <= s.len() && ws_end(s, e) == s.len() {
                Some(c)
            } else {
                None
            },
            None => None,
        }
    }
}

/// Decode a response body as one list.
pub fn checklist_from_json(s: &Vec<u8>) -> (r: Option<Checklist>)
    ensures
        match spec_checklist_doc(s@) {
            Some(d) => match r {
                Some(c) => cl_matches(c, d),
                None => !valid_utf8(d.name),
            },
            None => r is None,
        },
{
    let i = skip_ws(s, 0);
    let Some((cl, e)) = parse_checklist_at(s, i) else { return None };
    let t = skip_ws(s, e);
    if t != s.len() {
        return None;
    }
    Some(cl)
}

fn parse_cl_array_at(s: &Vec<u8>, i: usize) -> (r: Option<(Vec<Checklist>, usize)>)
    requires
        i <= s@.len(),
    ensures
        match spec_cl_array_at(s@, i as int) {
            Some((ds, e)) => match r {
                Some((v, e2)) => e2 == e && cl_seq_matches(v@, ds) && e2 <= s@.len(),
                None => exists|k: int| 0 <= k < ds.len() && !valid_utf8(#[trigger] ds[k].name),
            },
            None => r is None,
        },
{
    let len = s.len();
    if !(i < len && s[i] == 91) {
        return None;
    }
    let j = skip_ws(s, i + 1);
    let out: Vec<Checklist> = Vec::new();
    assert(cl_seq_matches(out@, Seq::<ClData>::empty()));
    if j < len && s[j] == 93 {
        return Some((out, j + 1));
    }
    parse_cl_elems(s, j, out, Ghost(Seq::<ClData>::empty()))
}

/// Decode a response body as an array of lists.
#[verifier::rlimit(100)]
#[verifier::spinoff_prover]
pub fn checklists_from_json(s: &Vec<u8>) -> (r: Option<Vec<Checklist>>)
    ensures
        match spec_checklists_doc(s@) {
            Some(ds) => match r {
                Some(v) => cl_seq_matches(v@, ds),
                None => exists|k: int| 0 <= k < ds.len() && !valid_utf8(#[trigger] ds[k].name),
            },
            None => r is None,
        },
{
    let ghost doc = spec_checklists_doc(s@);
    let i = skip_ws(s, 0);
    let ghost arr = spec_cl_array_at(s@, i as int);
    let r0 = parse_cl_array_at(s, i);
    match r0 {
        None => {
            proof {
                if doc is Some {
                    assert(arr is Some && arr.unwrap().0 == doc.unwrap());
                }
            }
            None
        },
        Some((v, e)) => {
            let t = skip_ws(s, e);
            if t != s.len() {
                proof {
                    if doc is Some {
                        assert(arr is Some && arr.unwrap().1 == e as int);
                        assert(ws_end(s@, e as int) == s@.len());
                    }
                }
                None
            } else {
                proof {
                    assert(arr == Some((arr.unwrap().0, e as int)));
                    assert(doc == Some(arr.unwrap().0));
                }
                Some(v)
            }
        },
    }
}

/// Decode a response body as one task.
pub fn task_from_json(s: &Vec<u8>) -> (r: Option<Task>)
    ensures
        match spec_task_doc(s@) {
            Some(d) => match r {
                Some(t) => tk_matches(t, d),
                None => !valid_utf8(d.content),
            },
            None => r is None,
        },
{
    let i = skip_ws(s, 0);
    let Some((tk, e)) = parse_task_at(s, i) else { return None };
    let t = skip_ws(s, e);
    if t != s.len() {
        return None;
    }
    Some(tk)
}

fn parse_task_array_at(s: &Vec<u8>, i: usize) -> (r: Option<(Vec<Task>, usize)>)
    requires
        i <= s@.len(),
    ensures
        match spec_task_array_at(s@, i as int) {
            Some((ds, e)) => match r {
                Some((v, e2)) => e2 == e && tk_seq_matches(v@, ds) && e2 <= s@.len(),
                None => exists|k: int| 0 <= k < ds.len() && !valid_utf8(#[trigger] ds[k].content),
            },
            None => r is None,
        },
{
    let len = s.len();
    if !(i < len && s[i] == 91) {
        return None;
    }
    let j = skip_ws(s, i + 1);
    let out: Vec<Task> = Vec::new();
    assert(tk_seq_matches(out@, Seq::<TkData>::empty()));
    if j < len && s[j] == 93 {
        return Some((out, j + 1));
    }
    parse_task_elems(s, j, out, Ghost(Seq::<TkData>::empty()))
}

/// Decode a response body as an array of tasks.
#[verifier::rlimit(100)]
#[verifier::spinoff_prover]
pub fn tasks_from_json(s: &Vec<u8>) -> (r: Option<Vec<Task>>)
    ensures
        match spec_tasks_doc(s@) {
            Some(ds) => match r {
                Some(v) => tk_seq_matches(v@, ds),
                None => exists|k: int| 0 <= k < ds.len() && !valid_utf8(#[trigger] ds[k].content),
            },
            None => r is None,
        },
{
    let ghost doc = spec_tasks_doc(s@);
    let i = skip_ws(s, 0);
    let ghost arr = spec_task_array_at(s@, i as int);
    let r0 = parse_task_array_at(s, i);
    match r0 {
        None => {
            proof {
                if doc is Some {
                    assert(arr is Some && arr.unwrap().0 == doc.unwrap());
                }
            }
            None
        },
        Some((v, e)) => {
            let t = skip_ws(s, e);
            if t != s.len() {
                proof {
                    if doc is Some {
                        assert(arr is Some && arr.unwrap().1 == e as int);
                        assert(ws_end(s@, e as int) == s@.len());
                    }
                }
                None
            } else {
                proof {
                    assert(arr == Some((arr.unwrap().0, e as int)));
                    assert(doc == Some(arr.unwrap().0));
                }
                Some(v)
            }
        },
    }
}

pub open spec fn key_token() -> Seq<u8> {
    seq![116u8, 111u8, 107u8, 101u8, 110u8]
}

pub open spec fn key_message() -> Seq<u8> {
    seq![109u8, 101u8, 115u8, 115u8, 97u8, 103u8, 101u8]
}

fn key_token_vec() -> (r: Vec<u8>)
    ensures
        r@ == key_token(),
{
    let mut v: Vec<u8> = Vec::new();
    v.push(116);
    v.push(111);
    v.push(107);
    v.push(101);
    v.push(110);
    assert(v@ =~= key_token());
    v
}

fn key_message_vec() -> (r: Vec<u8>)
    ensures
        r@ == key_message(),
{
    let mut v: Vec<u8> = Vec::new();
    v.push(109);
    v.push(101);
    v.push(115);
    v.push(115);
    v.push(97);
    v.push(103);
    v.push(101);
    assert(v@ =~= key_message());
    v
}

fn sf_from_json(s: &Vec<u8>, want: &Vec<u8>) -> (r: Option<String>)
    ensures
        match spec_sf_doc(s@, want@) {
            Some(b) => match r {
                Some(st) => valid_utf8(b) && st@ == decode_utf8(b),
                None => !valid_utf8(b),
            },
            None => r is None,
        },
{
    let i = skip_ws(s, 0);
    let len = s.len();
    if !(i < len && s[i] == 123) {
        return None;
    }
    let j = skip_ws(s, i + 1);
    let Some((c, e)) = parse_sf_members(s, j, want, None) else { return None };
    let t = skip_ws(s, e);
    if t != len {
        return None;
    }
    string_from_utf8(c)
}

/// Decode a login or refresh response: the `token` field.
pub fn token_from_json(s: &Vec<u8>) -> (r: Option<String>)
    ensures
        match spec_sf_doc(s@, key_token()) {
            Some(b) => match r {
                Some(st) => valid_utf8(b) && st@ == decode_utf8(b),
                None => !valid_utf8(b),
            },
            None => r is None,
        },
{
    let key = key_token_vec();
    sf_from_json(s, &key)
}

/// Decode a server error envelope: the `message` field.
pub fn message_from_json(s: &Vec<u8>) -> (r: Option<String>)
    ensures
        match spec_sf_doc(s@, key_message()) {
            Some(b) => match r {
                Some(st) => valid_utf8(b) && st@ == decode_utf8(b),
                None => !valid_utf8(b),
            },
            None => r is None,
        },
{
    let key = key_message_vec();
    sf_from_json(s, &key)
}

// ---------------------------------------------------------------------
// Serialization: the request bodies the client sends.
// ---------------------------------------------------------------------

/// Bytes of the string literal `s` (UTF-8).
pub open spec fn lit_b(s: &str) -> Seq<u8> {
    s.spec_bytes()
}

pub open spec fn hex_byte(n: int) -> u8 {
    if n < 10 {
        (48 + n) as u8
    } else {
        (87 + n) as u8
    }
}

/// JSON escape of one byte of string content: quote and backslash get
/// a backslash escape, control bytes the `\u00XX` form.
pub open spec fn esc_byte(b: u8) -> Seq<u8> {
    if b == 34 {
        seq![92u8, 34u8]
    } else if b == 92 {
        seq![92u8, 92u8]
    } else if b < 32 {
        seq![92u8, 117u8, 48u8, 48u8, hex_byte(b as int / 16), hex_byte(b as int % 16)]
    } else {
        seq![b]
    }
}

/// JSON escape of a whole byte run.
pub open spec fn spec_escape(s: Seq<u8>) -> Seq<u8>
    decreases s.len(),
{
    if s.len() == 0 {
        Seq::<u8>::empty()
    } else {
        spec_escape(s.drop_last()) + esc_byte(s.last())
    }
}

/// Decimal digits of `n` as bytes, most significant first.
pub open spec fn spec_dec(n: int) -> Seq<u8>
    decreases n,
{
    if n < 10 {
        seq![(48 + if n >= 0 { n } else { 0 }) as u8]
    } else {
        spec_dec(n / 10) + seq![(48 + n % 10) as u8]
    }
}

fn append_lit(out: &mut Vec<u8>, s: &str)
    ensures
        final(out)@ == old(out)@ + lit_b(s),
{
    let b = s.as_bytes();
    let n = b.len();
    let mut i: usize = 0;
    while i < n
        invariant
            n == b@.len(),
            b@ == s.spec_bytes(),
            i <= n,
            out@ == old(out)@ + b@.take(i as int),
        decreases n - i,
    {
        let x = b[i];
        out.push(x);
        assert(out@ =~= old(out)@ + b@.take(i + 1));
        i = i + 1;
    }
    assert(b@.take(n as int) =~= b@);
}

fn append_dec(out: &mut Vec<u8>, n: u32)
    ensures
        final(out)@ == old(out)@ + spec_dec(n as int),
    decreases n,
{
    if n >= 10 {
        append_dec(out, n / 10);
        out.push(48 + (n % 10) as u8);
        assert(final(out)@ =~= old(out)@ + spec_dec(n as int));
    } else {
        out.push(48 + n as u8);
        assert(final(out)@ =~= old(out)@ + spec_dec(n as int));
    }
}

fn append_escaped(out: &mut Vec<u8>, data: &[u8])
    ensures
        final(out)@ == old(out)@ + spec_escape(data@),
{
    let n = data.len();
    let mut i: usize = 0;
    while i < n
        invariant
            n == data@.len(),
            i <= n,
            out@ == old(out)@ + spec_escape(data@.take(i as int)),
        decreases n - i,
    {
        let b = data[i];
        proof {
            assert(data@.take(i + 1).drop_last() =~= data@.take(i as int));
            assert(data@.take(i + 1).last() == data@[i as int]);
        }
        if b == 34 {
            out.push(92);
            out.push(34);
        } else if b == 92 {
            out.push(92);
            out.push(92);
        } else if b < 32 {
            out.push(92);
            out.push(117);
            out.push(48);
            out.push(48);
            out.push(if b / 16 < 10 {
                48 + b / 16
            } else {
                87 + b / 16
            });
            out.push(if b % 16 < 10 {
                48 + b % 16
            } else {
                87 + b % 16
            });
        } else {
            out.push(b);
        }
        assert(out@ =~= old(out)@ + spec_escape(data@.take(i + 1)));
        i = i + 1;
    }
    assert(data@.take(n as int) =~= data@);
}

/// Append a JSON string: quote, escaped content, quote.
fn append_quoted(out: &mut Vec<u8>, s: &str)
    ensures
        final(out)@ == old(out)@ + seq![34u8] + spec_escape(s.spec_bytes()) + seq![34u8],
{
    out.push(34);
    append_escaped(out, s.as_bytes());
    out.push(34);
    assert(final(out)@ =~= old(out)@ + seq![34u8] + spec_escape(s.spec_bytes()) + seq![34u8]);
}

/// The request body that creates a task: the task serialized with `id`
/// omitted when absent and `parent_id` spelled `null` when absent.
pub open spec fn spec_task_body(t: Task) -> Seq<u8> {
    lit_b("{") + (match t.id {
        Some(n) => lit_b("\"id\":") + spec_dec(n as int) + lit_b(","),
        None => Seq::<u8>::empty(),
    }) + lit_b("\"content\":") + seq![34u8] + spec_escape(encode_utf8(t.content@)) + seq![34u8]
        + lit_b(",\"position\":") + spec_dec(t.position as int) + lit_b(",\"parent_id\":") + (
    match t.parent_id {
        Some(n) => spec_dec(n as int),
        None => lit_b("null"),
    }) + lit_b("}")
}

/// Serialize a task for the task-creation request.
pub fn task_to_json(t: &Task) -> (r: Vec<u8>)
    ensures
        r@ == spec_task_body(*t),
{
    let mut out: Vec<u8> = Vec::new();
    append_lit(&mut out, "{");
    match t.id {
        Some(n) => {
            append_lit(&mut out, "\"id\":");
            append_dec(&mut out, n);
            append_lit(&mut out, ",");
        },
        None => {},
    }
    append_lit(&mut out, "\"content\":");
    append_quoted(&mut out, t.content.as_str());
    append_lit(&mut out, ",\"position\":");
    append_dec(&mut out, t.position as u32);
    append_lit(&mut out, ",\"parent_id\":");
    match t.parent_id {
        Some(n) => append_dec(&mut out, n),
        None => append_lit(&mut out, "null"),
    }
    append_lit(&mut out, "}");
    assert(out@ =~= spec_task_body(*t));
    out
}

/// The wire form of a list, as the service serializes it.
pub open spec fn spec_checklist_body(c: Checklist) -> Seq<u8> {
    lit_b("{\"id\":") + spec_dec(c.id as int) + lit_b(",\"name\":") + seq![34u8] + spec_escape(encode_utf8(c.name@)) + seq![34u8] + lit_b(",\"updated_at\":") + seq![34u8] + crate::date::spec_format_date(
        c.updated_at,
    ) + seq![34u8] + lit_b(",\"task_count\":") + spec_dec(c.task_count as int) + lit_b("}")
}

/// Serialize a list in the wire form.
pub fn checklist_to_json(c: &Checklist) -> (r: Vec<u8>)
    requires
        c.updated_at.wf(),
    ensures
        r@ == spec_checklist_body(*c),
{
    let mut out: Vec<u8> = Vec::new();
    append_lit(&mut out, "{\"id\":");
    append_dec(&mut out, c.id);
    append_lit(&mut out, ",\"name\":");
    append_quoted(&mut out, c.name.as_str());
    append_lit(&mut out, ",\"updated_at\":");
    out.push(34);
    let mut datebytes = crate::date::format_date(&c.updated_at);
    out.append(&mut datebytes);
    out.push(34);
    append_lit(&mut out, ",\"task_count\":");
    append_dec(&mut out, c.task_count as u32);
    append_lit(&mut out, "}");
    assert(out@ =~= spec_checklist_body(*c));
    out
}

/// The login request body.
pub open spec fn spec_login_body(username: Seq<u8>, remote_key: Seq<u8>) -> Seq<u8> {
    lit_b("{\"username\":") + seq![34u8] + spec_escape(username) + seq![34u8] + lit_b(
        ",\"remote_key\":",
    ) + seq![34u8] + spec_escape(remote_key) + seq![34u8] + lit_b("}")
}

/// Serialize the login request body.
pub fn login_body(username: &str, remote_key: &str) -> (r: Vec<u8>)
    ensures
        r@ == spec_login_body(username.spec_bytes(), remote_key.spec_bytes()),
{
    let mut out: Vec<u8> = Vec::new();
    append_lit(&mut out, "{\"username\":");
    append_quoted(&mut out, username);
    append_lit(&mut out, ",\"remote_key\":");
    append_quoted(&mut out, remote_key);
    append_lit(&mut out, "}");
    assert(out@ =~= spec_login_body(username.spec_bytes(), remote_key.spec_bytes()));
    out
}

/// The token-refresh request body.
pub open spec fn spec_refresh_body(old_token: Seq<u8>) -> Seq<u8> {
    lit_b("{\"old_token\":") + seq![34u8] + spec_escape(old_token) + seq![34u8] + lit_b("}")
}

/// Serialize the token-refresh request body.
pub fn refresh_body(old_token: &str) -> (r: Vec<u8>)
    ensures
        r@ == spec_refresh_body(old_token.spec_bytes()),
{
    let mut out: Vec<u8> = Vec::new();
    append_lit(&mut out, "{\"old_token\":");
    append_quoted(&mut out, old_token);
    append_lit(&mut out, "}");
    assert(out@ =~= spec_refresh_body(old_token.spec_bytes()));
    out
}

/// The list-creation request body.
pub open spec fn spec_add_list_body(name: Seq<u8>) -> Seq<u8> {
    lit_b("{\"name\":") + seq![34u8] + spec_escape(name) + seq![34u8] + lit_b("}")
}

/// Serialize the list-creation request body.
pub fn add_list_body(name: &str) -> (r: Vec<u8>)
    ensures
        r@ == spec_add_list_body(name.spec_bytes()),
{
    let mut out: Vec<u8> = Vec::new();
    append_lit(&mut out, "{\"name\":");
    append_quoted(&mut out, name);
    append_lit(&mut out, "}");
    assert(out@ =~= spec_add_list_body(name.spec_bytes()));
    out
}

} // verus!
