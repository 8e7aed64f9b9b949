//! Text that the machine prints and reads: numbers in a radix, the dump
//! line, numeric input, and strings packed into three-byte chunks.

use crate::instruction::Radix;
use crate::word::{abs, magnitude, signed, wrap};
use vstd::prelude::*;

verus! {

/// The lowercase ASCII digit for `d` (below 16).
pub open spec fn digit_char(d: nat) -> u8 {
    if d < 10 {
        (48 + d) as u8
    } else {
        (87 + d) as u8
    }
}

/// The digits of `n` in `radix`, most significant first, without leading zeros.
pub open spec fn digits(n: nat, radix: nat) -> Seq<u8>
    decreases n,
    via digits_decreases
{
    if radix < 2 || n < radix {
        seq![digit_char(n)]
    } else {
        digits(n / radix, radix) + seq![digit_char(n % radix)]
    }
}

#[via_fn]
proof fn digits_decreases(n: nat, radix: nat) {
    if !(radix < 2 || n < radix) {
        vstd::arithmetic::div_mod::lemma_div_decreases(n as int, radix as int);
    }
}

/// `s` preceded by enough `0` digits to make it `width` long.
pub open spec fn zero_padded(s: Seq<u8>, width: nat) -> Seq<u8> {
    if s.len() < width {
        Seq::new((width - s.len()) as nat, |i: int| 48u8) + s
    } else {
        s
    }
}

/// The line that the formatted print writes for the word `v`.
pub open spec fn print_text(v: u32, radix: Radix) -> Seq<u8> {
    let body = match radix {
        Radix::Decimal => if signed(v) < 0 {
            seq![45u8] + digits(abs(signed(v)) as nat, 10)
        } else {
            digits(v as nat, 10)
        },
        Radix::Hex => seq![48u8, 120u8] + digits(v as nat, 16),
        Radix::Binary => seq![48u8, 98u8] + digits(v as nat, 2),
        Radix::Octal => seq![48u8, 111u8] + digits(v as nat, 8),
    };
    body + seq![10u8]
}

/// The dump line for the word `v` at `offset` bytes above the stack pointer.
pub open spec fn dump_text(offset: nat, v: u32) -> Seq<u8> {
    zero_padded(digits(offset, 16), 4) + seq![58u8, 32u8] + zero_padded(digits(v as nat, 16), 8)
        + seq![10u8]
}

fn digit_byte(d: u32) -> (r: u8)
    requires
        d < 16,
    ensures
        r == digit_char(d as nat),
{
    if d < 10 {
        (48 + d) as u8
    } else {
        (87 + d) as u8
    }
}

/// Appends the digits of `n` in `radix`.
fn push_digits(out: &mut Vec<u8>, n: u32, radix: u32)
    requires
        2 <= radix <= 16,
    ensures
        final(out)@ == old(out)@ + digits(n as nat, radix as nat),
    decreases n,
{
    if n >= radix {
        proof {
            vstd::arithmetic::div_mod::lemma_div_decreases(n as int, radix as int);
        }
        push_digits(out, n / radix, radix);
    }
    out.push(digit_byte(n % radix));
    proof {
        if n < radix {
            vstd::arithmetic::div_mod::lemma_small_mod(n as nat, radix as nat);
        }
        assert(final(out)@ =~= old(out)@ + digits(n as nat, radix as nat));
    }
}

/// Appends the digits of `n` in base 16, padded with zeros to `width`.
fn push_hex_padded(out: &mut Vec<u8>, n: u32, width: usize)
    requires
        width <= 8,
    ensures
        final(out)@ == old(out)@ + zero_padded(digits(n as nat, 16), width as nat),
{
    let mut d: Vec<u8> = Vec::new();
    push_digits(&mut d, n, 16);
    assert(d@ =~= digits(n as nat, 16));
    let len = d.len();
    let mut i: usize = len;
    let ghost start = out@;
    while i < width
        invariant
            len == d@.len(),
            len <= i,
            i <= width || i == len,
            width <= 8,
            out@ == start + Seq::new((i - len) as nat, |k: int| 48u8),
        decreases width - i,
    {
        out.push(48u8);
        i = i + 1;
        assert(out@ =~= start + Seq::new((i - len) as nat, |k: int| 48u8));
    }
    let mut j: usize = 0;
    let ghost padded = out@;
    while j < len
        invariant
            j <= len,
            len == d@.len(),
            out@ == padded + d@.subrange(0, j as int),
        decreases len - j,
    {
        out.push(d[j]);
        j = j + 1;
        assert(out@ =~= padded + d@.subrange(0, j as int));
    }
    assert(d@.subrange(0, len as int) =~= d@);
    if len < width {
        assert(out@ =~= old(out)@ + zero_padded(digits(n as nat, 16), width as nat));
    } else {
        assert(Seq::new((i - len) as nat, |k: int| 48u8) =~= Seq::<u8>::empty());
        assert(out@ =~= old(out)@ + zero_padded(digits(n as nat, 16), width as nat));
    }
}

/// The line that the formatted print writes for `v` in `radix`.
pub fn format_word(v: u32, radix: Radix) -> (r: Vec<u8>)
    ensures
        r@ == print_text(v, radix),
{
    let mut out: Vec<u8> = Vec::new();
    match radix {
        Radix::Decimal => {
            if v >= 0x8000_0000 {
                out.push(45u8);
                push_digits(&mut out, magnitude(v), 10);
            } else {
                push_digits(&mut out, v, 10);
            }
        },
        Radix::Hex => {
            out.push(48u8);
            out.push(120u8);
            push_digits(&mut out, v, 16);
        },
        Radix::Binary => {
            out.push(48u8);
            out.push(98u8);
            push_digits(&mut out, v, 2);
        },
        Radix::Octal => {
            out.push(48u8);
            out.push(111u8);
            push_digits(&mut out, v, 8);
        },
    }
    out.push(10u8);
    assert(out@ =~= print_text(v, radix));
    out
}

/// The dump line for the word `v` at `offset` bytes above the stack pointer.
pub fn format_dump_line(offset: u32, v: u32) -> (r: Vec<u8>)
    ensures
        r@ == dump_text(offset as nat, v),
{
    let mut out: Vec<u8> = Vec::new();
    push_hex_padded(&mut out, offset, 4);
    out.push(58u8);
    out.push(32u8);
    push_hex_padded(&mut out, v, 8);
    out.push(10u8);
    assert(out@ =~= dump_text(offset as nat, v));
    out
}

/// Whether `c` has the Unicode `White_Space` property.
pub open spec fn is_white_space(c: char) -> bool {
    let u = c as u32;
    (0x09 <= u <= 0x0d) || u == 0x20 || u == 0x85 || u == 0xa0 || u == 0x1680 || (0x2000 <= u
        <= 0x200a) || u == 0x2028 || u == 0x2029 || u == 0x202f || u == 0x205f || u == 0x3000
}

pub open spec fn trim_start_chars(s: Seq<char>) -> Seq<char>
    decreases s.len(),
{
    if s.len() > 0 && is_white_space(s[0]) {
        trim_start_chars(s.drop_first())
    } else {
        s
    }
}

pub open spec fn trim_end_chars(s: Seq<char>) -> Seq<char>
    decreases s.len(),
{
    if s.len() > 0 && is_white_space(s.last()) {
        trim_end_chars(s.drop_last())
    } else {
        s
    }
}

/// `s` without its leading and trailing white space.
pub open spec fn trim_chars(s: Seq<char>) -> Seq<char> {
    trim_end_chars(trim_start_chars(s))
}

/// The bytes of an input line that the input instructions read: the line
/// without surrounding white space, in UTF-8.
pub open spec fn line_bytes(line: Seq<char>) -> Seq<u8> {
    vstd::utf8::encode_utf8(trim_chars(line))
}

/// Relies on `str::trim`: it removes the leading and trailing characters that
/// have the Unicode `White_Space` property, and nothing else.
#[verifier::external_body]
pub(crate) fn trim_line(s: &str) -> (r: &str)
    ensures
        r@ == trim_chars(s@),
{
    s.trim()
}

/// The value of an ASCII digit of any radix up to 36; 36 for other bytes.
pub open spec fn digit_value(c: u8) -> nat {
    if 48 <= c <= 57 {
        (c - 48) as nat
    } else if 97 <= c <= 122 {
        (c - 87) as nat
    } else if 65 <= c <= 90 {
        (c - 55) as nat
    } else {
        36
    }
}

/// The number that the digits `s` stand for in `radix`.
pub open spec fn digits_value(s: Seq<u8>, radix: nat) -> int
    decreases s.len(),
{
    if s.len() == 0 {
        0
    } else {
        digits_value(s.drop_last(), radix) * radix + digit_value(s.last())
    }
}

pub open spec fn all_digits(s: Seq<u8>, radix: nat) -> bool {
    forall|i: int| 0 <= i < s.len() ==> #[trigger] digit_value(s[i]) < radix
}

/// A 32-bit signed integer written in `radix` with an optional `+` or `-`
/// sign; `None` for anything else or a value out of range.
pub open spec fn parse_int(s: Seq<u8>, radix: nat) -> Option<int> {
    let has_sign = s.len() > 0 && (s[0] == 43 || s[0] == 45);
    let body = if has_sign {
        s.drop_first()
    } else {
        s
    };
    let v = if has_sign && s[0] == 45 {
        -digits_value(body, radix)
    } else {
        digits_value(body, radix)
    };
    if body.len() == 0 || !all_digits(body, radix) || v < -0x8000_0000 || v >= 0x8000_0000 {
        None
    } else {
        Some(v)
    }
}

/// Whether `t` starts with `0` followed by `lower` or `upper`.
pub open spec fn has_prefix(t: Seq<u8>, lower: u8, upper: u8) -> bool {
    t.len() >= 2 && t[0] == 48 && (t[1] == lower || t[1] == upper)
}

/// The word that the number input pushes for the trimmed line `t`: hexadecimal
/// after `0x`, binary after `0b`, else decimal; zero when it does not parse.
pub open spec fn input_value(t: Seq<u8>) -> u32 {
    let parsed = if has_prefix(t, 120, 88) {
        parse_int(t.subrange(2, t.len() as int), 16)
    } else if has_prefix(t, 98, 66) {
        parse_int(t.subrange(2, t.len() as int), 2)
    } else {
        parse_int(t, 10)
    };
    match parsed {
        Some(v) => wrap(v),
        None => 0,
    }
}

fn digit_of(c: u8) -> (r: u32)
    ensures
        r == digit_value(c),
{
    if 48 <= c && c <= 57 {
        (c - 48) as u32
    } else if 97 <= c && c <= 122 {
        (c - 87) as u32
    } else if 65 <= c && c <= 90 {
        (c - 55) as u32
    } else {
        36
    }
}

/// Parses `s[start..]` as a signed integer in `radix`.
fn parse_from(s: &[u8], start: usize, radix: u32) -> (r: Option<i32>)
    requires
        start <= s@.len(),
        2 <= radix <= 16,
    ensures
        match r {
            Some(v) => parse_int(s@.subrange(start as int, s@.len() as int), radix as nat) == Some(
                v as int,
            ),
            None => parse_int(s@.subrange(start as int, s@.len() as int), radix as nat) is None,
        },
{
    let ghost text = s@.subrange(start as int, s@.len() as int);
    let len = s.len();
    let mut i = start;
    let mut negative = false;
    if i < len && (s[i] == 43 || s[i] == 45) {
        negative = s[i] == 45;
        i = i + 1;
    }
    let body_start = i;
    let ghost body = s@.subrange(body_start as int, len as int);
    assert(body =~= (if text.len() > 0 && (text[0] == 43 || text[0] == 45) {
        text.drop_first()
    } else {
        text
    }));
    if i == len {
        assert(body.len() == 0);
        return None;
    }
    let mut mag: u64 = 0;
    let mut big = false;
    while i < len
        invariant
            body_start <= i <= len,
            len == s@.len(),
            2 <= radix <= 16,
            body == s@.subrange(body_start as int, len as int),
            text == s@.subrange(start as int, len as int),
            body == (if text.len() > 0 && (text[0] == 43 || text[0] == 45) {
                text.drop_first()
            } else {
                text
            }),
            all_digits(s@.subrange(body_start as int, i as int), radix as nat),
            !big ==> mag == digits_value(s@.subrange(body_start as int, i as int), radix as nat)
                && mag <= 0x8000_0000,
            big ==> digits_value(s@.subrange(body_start as int, i as int), radix as nat)
                > 0x8000_0000,
        decreases len - i,
    {
        let d = digit_of(s[i]);
        let ghost prefix = s@.subrange(body_start as int, i as int);
        let ghost next = s@.subrange(body_start as int, i + 1);
        assert(next.drop_last() =~= prefix);
        if d >= radix {
            assert(!all_digits(body, radix as nat)) by {
                assert(body[i - body_start] == s@[i as int]);
            }
            return None;
        }
        assert(all_digits(next, radix as nat)) by {
            assert forall|k: int| 0 <= k < next.len() implies #[trigger] digit_value(next[k])
                < radix by {
                if k < prefix.len() {
                    assert(next[k] == prefix[k]);
                }
            }
        }
        let ghost old_value = digits_value(prefix, radix as nat);
        assert(digits_value(next, radix as nat) == old_value * radix + d);
        if big {
            assert(old_value * radix + d > 0x8000_0000) by (nonlinear_arith)
                requires
                    old_value > 0x8000_0000,
                    radix >= 2,
                    d >= 0,
            ;
        } else {
            assert(mag * radix + d <= 0x8000_0000 * 16 + 16) by (nonlinear_arith)
                requires
                    mag <= 0x8000_0000,
                    radix <= 16,
                    d < 16,
            ;
            mag = mag * (radix as u64) + (d as u64);
            if mag > 0x8000_0000 {
                big = true;
            }
        }
        i = i + 1;
    }
    assert(s@.subrange(body_start as int, i as int) =~= body);
    if big {
        return None;
    }
    if negative {
        Some((0 - (mag as i64)) as i32)
    } else if mag < 0x8000_0000 {
        Some(mag as i32)
    } else {
        None
    }
}

/// The word that the number input pushes for the trimmed line `t`.
pub fn parse_input(t: &[u8]) -> (r: u32)
    ensures
        r == input_value(t@),
{
    let parsed = if t.len() >= 2 && t[0] == 48 && (t[1] == 120 || t[1] == 88) {
        parse_from(t, 2, 16)
    } else if t.len() >= 2 && t[0] == 48 && (t[1] == 98 || t[1] == 66) {
        parse_from(t, 2, 2)
    } else {
        assert(t@.subrange(0, t@.len() as int) =~= t@);
        parse_from(t, 0, 10)
    };
    match parsed {
        Some(v) => {
            proof {
                crate::word::lemma_wrap_small(v as int);
            }
            if v < 0 {
                (v as i64 + 0x1_0000_0000) as u32
            } else {
                v as u32
            }
        },
        None => 0,
    }
}

/// The byte `b` of `s`, or zero past its end.
pub open spec fn byte_or_zero(s: Seq<u8>, i: int) -> int {
    if 0 <= i < s.len() {
        s[i] as int
    } else {
        0
    }
}

/// Chunk `k` of `s`: bytes `3k`, `3k+1` and `3k+2` (zero past the end) in the
/// low three bytes, and in the high byte 1 when more chunks follow, else 0.
pub open spec fn chunk_word(s: Seq<u8>, k: int) -> u32 {
    (byte_or_zero(s, 3 * k) + 256 * byte_or_zero(s, 3 * k + 1) + 0x1_0000 * byte_or_zero(s, 3 * k + 2)
        + 0x100_0000 * (if 3 * k + 3 < s.len() {
        1int
    } else {
        0int
    })) as u32
}

/// The chunks of `s`, first chunk first.
pub open spec fn chunk_words(s: Seq<u8>) -> Seq<u32> {
    Seq::new(((s.len() + 2) / 3) as nat, |k: int| chunk_word(s, k))
}

/// How many bytes of `t` the string input keeps under the limit `max_chars`.
pub open spec fn kept_len(t: Seq<u8>, max_chars: u32) -> int {
    if max_chars == 0xFF_FFFF || t.len() <= max_chars {
        t.len() as int
    } else {
        max_chars as int
    }
}

/// The words that the string input stores for the trimmed line `t`, first
/// chunk first: a single zero word for an empty line.
pub open spec fn string_words(t: Seq<u8>, max_chars: u32) -> Seq<u32> {
    if t.len() == 0 {
        seq![0u32]
    } else {
        chunk_words(t.subrange(0, kept_len(t, max_chars)))
    }
}

/// Packs the trimmed line `t` into chunk words, first chunk first.
pub fn pack_string(t: &[u8], max_chars: u32) -> (r: Vec<u32>)
    ensures
        r@ == string_words(t@, max_chars),
{
    let mut out: Vec<u32> = Vec::new();
    if t.len() == 0 {
        out.push(0);
        assert(out@ =~= string_words(t@, max_chars));
        return out;
    }
    let n: usize = if max_chars == 0xFF_FFFF || t.len() <= max_chars as usize {
        t.len()
    } else {
        max_chars as usize
    };
    let ghost kept = t@.subrange(0, n as int);
    let mut start: usize = 0;
    while start < n
        invariant
            n <= t@.len(),
            kept == t@.subrange(0, n as int),
            start % 3 == 0,
            start <= n + 2,
            start < n ==> start + 3 <= n + 2,
            out@ == Seq::new((start / 3) as nat, |k: int| chunk_word(kept, k)),
        decreases n + 3 - start,
    {
        let b0: u32 = t[start] as u32;
        let b1: u32 = if start + 1 < n {
            t[start + 1] as u32
        } else {
            0
        };
        let b2: u32 = if start + 2 < n {
            t[start + 2] as u32
        } else {
            0
        };
        let more: u32 = if start + 3 < n {
            1
        } else {
            0
        };
        let w = b0 + 256 * b1 + 0x1_0000 * b2 + 0x100_0000 * more;
        proof {
            let k = start as int / 3;
            assert(3 * k == start);
            assert(w == chunk_word(kept, k));
        }
        out.push(w);
        start = start + 3;
        assert(out@ =~= Seq::new((start / 3) as nat, |k: int| chunk_word(kept, k)));
    }
    assert(out@ =~= string_words(t@, max_chars));
    out
}

} // verus!
