//! Byte-level encodings shared by the whole crate: big-endian integers,
//! hexadecimal text, and UTF-8 validity.

use vstd::prelude::*;

verus! {

/// Errors from parsing text out of raw bytes.
#[derive(Debug, Clone, Copy, PartialEq, Eq, Structural)]
pub enum ParseError {
    /// The bytes are not valid UTF-8.
    Utf8,
    /// The bytes are not a number of the expected shape, or it overflows.
    Integer,
}

// ---------------------------------------------------------------------------
// Big-endian integers
// ---------------------------------------------------------------------------

/// The value of two bytes read as a big-endian 16-bit integer.
pub open spec fn be16_val(hi: u8, lo: u8) -> u16 {
    (hi * 256 + lo) as u16
}

/// The value of four bytes read as a big-endian 32-bit integer.
pub open spec fn be32_val(b0: u8, b1: u8, b2: u8, b3: u8) -> u32 {
    (b0 * 0x100_0000 + b1 * 0x1_0000 + b2 * 0x100 + b3) as u32
}

/// The two big-endian bytes of a 16-bit integer.
pub open spec fn be16_bytes(x: u16) -> Seq<u8> {
    seq![(x / 256) as u8, (x % 256) as u8]
}

/// The four big-endian bytes of a 32-bit integer.
pub open spec fn be32_bytes(x: u32) -> Seq<u8> {
    seq![
        (x / 0x100_0000) as u8,
        ((x / 0x1_0000) % 0x100) as u8,
        ((x / 0x100) % 0x100) as u8,
        (x % 0x100) as u8,
    ]
}

pub fn u16_to_be(x: u16) -> (r: [u8; 2])
    ensures
        r@ == be16_bytes(x),
        be16_val(r[0], r[1]) == x,
{
    let hi = (x / 256) as u8;
    let lo = (x % 256) as u8;
    assert(be16_bytes(x) == seq![hi, lo]);
    let r = [hi, lo];
    assert(r@ =~= seq![hi, lo]);
    r
}

pub fn u16_from_be(hi: u8, lo: u8) -> (r: u16)
    ensures
        r == be16_val(hi, lo),
{
    hi as u16 * 256 + lo as u16
}

pub fn u32_to_be(x: u32) -> (r: [u8; 4])
    ensures
        r@ == be32_bytes(x),
        be32_val(r[0], r[1], r[2], r[3]) == x,
{
    let b0 = (x / 0x100_0000) as u8;
    let b1 = ((x / 0x1_0000) % 0x100) as u8;
    let b2 = ((x / 0x100) % 0x100) as u8;
    let b3 = (x % 0x100) as u8;
    let r = [b0, b1, b2, b3];
    assert(r@ =~= be32_bytes(x));
    assert(be32_val(b0, b1, b2, b3) == x) by {
        assert(b0 == x / 0x100_0000 && b1 == (x / 0x1_0000) % 0x100 && b2 == (x / 0x100) % 0x100
            && b3 == x % 0x100);
    };
    r
}

pub fn u32_from_be(b0: u8, b1: u8, b2: u8, b3: u8) -> (r: u32)
    ensures
        r == be32_val(b0, b1, b2, b3),
{
    b0 as u32 * 0x100_0000 + b1 as u32 * 0x1_0000 + b2 as u32 * 0x100 + b3 as u32
}

/// The eight big-endian bytes of a 64-bit integer.
pub open spec fn be64_bytes(x: u64) -> Seq<u8> {
    seq![
        ((x / 0x100_0000_0000_0000) % 0x100) as u8,
        ((x / 0x1_0000_0000_0000) % 0x100) as u8,
        ((x / 0x100_0000_0000) % 0x100) as u8,
        ((x / 0x1_0000_0000) % 0x100) as u8,
        ((x / 0x100_0000) % 0x100) as u8,
        ((x / 0x1_0000) % 0x100) as u8,
        ((x / 0x100) % 0x100) as u8,
        (x % 0x100) as u8,
    ]
}

/// The value of eight bytes read as a big-endian 64-bit integer.
pub open spec fn be64_val(b: Seq<u8>) -> u64 {
    (b[0] * 0x100_0000_0000_0000 + b[1] * 0x1_0000_0000_0000 + b[2] * 0x100_0000_0000 + b[3]
        * 0x1_0000_0000 + b[4] * 0x100_0000 + b[5] * 0x1_0000 + b[6] * 0x100 + b[7]) as u64
}

pub fn u64_to_be(x: u64) -> (r: [u8; 8])
    ensures
        r@ == be64_bytes(x),
        be64_val(r@) == x,
{
    let b0 = ((x / 0x100_0000_0000_0000) % 0x100) as u8;
    let b1 = ((x / 0x1_0000_0000_0000) % 0x100) as u8;
    let b2 = ((x / 0x100_0000_0000) % 0x100) as u8;
    let b3 = ((x / 0x1_0000_0000) % 0x100) as u8;
    let b4 = ((x / 0x100_0000) % 0x100) as u8;
    let b5 = ((x / 0x1_0000) % 0x100) as u8;
    let b6 = ((x / 0x100) % 0x100) as u8;
    let b7 = (x % 0x100) as u8;
    let r = [b0, b1, b2, b3, b4, b5, b6, b7];
    assert(r@ =~= be64_bytes(x));
    proof {
        lemma_be64_digits(x);
    }
    r
}

proof fn lemma_be64_digits(x: u64)
    ensures
        ((x / 0x100_0000_0000_0000) % 0x100) * 0x100_0000_0000_0000 + ((x / 0x1_0000_0000_0000)
            % 0x100) * 0x1_0000_0000_0000 + ((x / 0x100_0000_0000) % 0x100) * 0x100_0000_0000 + ((
        x / 0x1_0000_0000) % 0x100) * 0x1_0000_0000 + ((x / 0x100_0000) % 0x100) * 0x100_0000 + ((
        x / 0x1_0000) % 0x100) * 0x1_0000 + ((x / 0x100) % 0x100) * 0x100 + (x % 0x100) == x,
{
    assert(((x / 0x100_0000_0000_0000) % 0x100) * 0x100_0000_0000_0000 + ((x
        / 0x1_0000_0000_0000) % 0x100) * 0x1_0000_0000_0000 + ((x / 0x100_0000_0000) % 0x100)
        * 0x100_0000_0000 + ((x / 0x1_0000_0000) % 0x100) * 0x1_0000_0000 + ((x / 0x100_0000)
        % 0x100) * 0x100_0000 + ((x / 0x1_0000) % 0x100) * 0x1_0000 + ((x / 0x100) % 0x100)
        * 0x100 + (x % 0x100) == x) by (bit_vector);
}

pub fn u64_from_be(b: &[u8; 8]) -> (r: u64)
    ensures
        r == be64_val(b@),
{
    (b[0] as u64) * 0x100_0000_0000_0000 + (b[1] as u64) * 0x1_0000_0000_0000 + (b[2] as u64)
        * 0x100_0000_0000 + (b[3] as u64) * 0x1_0000_0000 + (b[4] as u64) * 0x100_0000 + (
    b[5] as u64) * 0x1_0000 + (b[6] as u64) * 0x100 + (b[7] as u64)
}

/// Round-trip of the big-endian 32-bit encoding: the four bytes of a value
/// read back as that value, and values with equal bytes are equal.
pub proof fn lemma_be32_round_trip(x: u32)
    ensures
        be32_val(
            be32_bytes(x)[0],
            be32_bytes(x)[1],
            be32_bytes(x)[2],
            be32_bytes(x)[3],
        ) == x,
{
}

// ---------------------------------------------------------------------------
// Hexadecimal
// ---------------------------------------------------------------------------

/// Whether a byte is an ASCII hexadecimal digit.
pub open spec fn is_hex_digit(c: u8) -> bool {
    (0x30 <= c <= 0x39) || (0x41 <= c <= 0x46) || (0x61 <= c <= 0x66)
}

/// The numeric value of one ASCII hexadecimal digit.
pub open spec fn hex_digit_val(c: u8) -> int {
    if 0x30 <= c <= 0x39 {
        c - 0x30
    } else if 0x41 <= c <= 0x46 {
        c - 0x41 + 10
    } else {
        c - 0x61 + 10
    }
}

/// The value of a big-endian string of hexadecimal digits.
pub open spec fn hex_seq_val(s: Seq<u8>) -> int
    decreases s.len(),
{
    if s.len() == 0 {
        0
    } else {
        hex_seq_val(s.drop_last()) * 16 + hex_digit_val(s.last())
    }
}

/// The lowercase ASCII digit for a value below 16.
pub open spec fn hex_digit_of(v: int) -> u8 {
    if v < 10 {
        (0x30 + v) as u8
    } else {
        (0x61 + (v - 10)) as u8
    }
}

/// The shortest lowercase hexadecimal spelling of a value, as `{:x}` prints
/// it: no leading zeros, a single `0` for zero.
pub open spec fn hex_repr(n: int) -> Seq<u8>
    decreases n,
{
    if n < 16 {
        seq![hex_digit_of(n)]
    } else {
        hex_repr(n / 16).push(hex_digit_of(n % 16))
    }
}

proof fn lemma_hex_digit_of_val(v: int)
    requires
        0 <= v < 16,
    ensures
        is_hex_digit(hex_digit_of(v)),
        hex_digit_val(hex_digit_of(v)) == v,
{
}

/// Every digit of `hex_repr` is a hex digit, and the spelling reads back as
/// the value it was made from.
pub proof fn lemma_hex_repr_val(n: int)
    requires
        n >= 0,
    ensures
        hex_repr(n).len() >= 1,
        forall|i: int| 0 <= i < hex_repr(n).len() ==> is_hex_digit(#[trigger] hex_repr(n)[i]),
        hex_seq_val(hex_repr(n)) == n,
    decreases n,
{
    if n < 16 {
        lemma_hex_digit_of_val(n);
        let s = hex_repr(n);
        assert(s == seq![hex_digit_of(n)]);
        assert(s.drop_last() =~= Seq::<u8>::empty());
        assert(hex_seq_val(s.drop_last()) == 0);
        assert(s.last() == hex_digit_of(n));
        assert(hex_seq_val(s) == hex_seq_val(s.drop_last()) * 16 + hex_digit_val(s.last()));
    } else {
        lemma_hex_repr_val(n / 16);
        lemma_hex_digit_of_val(n % 16);
        let s = hex_repr(n);
        assert(s == hex_repr(n / 16).push(hex_digit_of(n % 16)));
        assert(s.drop_last() =~= hex_repr(n / 16));
        assert(s.last() == hex_digit_of(n % 16));
        assert(hex_seq_val(s) == hex_seq_val(hex_repr(n / 16)) * 16 + hex_digit_val(
            hex_digit_of(n % 16),
        ));
        assert(n / 16 * 16 + n % 16 == n) by (nonlinear_arith);
    }
}

/// Prints a value in lowercase hexadecimal, as the `{:x}` format does.
pub fn to_hex_bytes(n: u64) -> (r: Vec<u8>)
    ensures
        r@ == hex_repr(n as int),
{
    let mut digits: Vec<u8> = Vec::new();
    let mut rest: u64 = n;
    loop
        invariant_except_break
            hex_repr(n as int) == hex_repr(rest as int) + digits@,
        ensures
            hex_repr(n as int) == digits@,
        decreases rest,
    {
        let d = (rest % 16) as u8;
        let digit = if d < 10 {
            0x30 + d
        } else {
            0x61 + (d - 10)
        };
        assert(digit == hex_digit_of(d as int));
        if rest < 16 {
            let ghost before = digits@;
            digits.insert(0, digit);
            assert(digits@ =~= seq![digit] + before);
            assert(hex_repr(rest as int) == seq![digit]);
            assert(hex_repr(n as int) =~= digits@);
            break;
        } else {
            let ghost before = digits@;
            let ghost old_rest = rest as int;
            digits.insert(0, digit);
            assert(digits@ =~= seq![digit] + before);
            rest = rest / 16;
            assert(hex_repr(old_rest) == hex_repr(rest as int).push(hex_digit_of(old_rest % 16)));
            assert(hex_repr(rest as int).push(digit) =~= hex_repr(rest as int) + seq![digit]);
            assert(hex_repr(old_rest) + before =~= hex_repr(rest as int) + (seq![digit] + before));
        }
    }
    digits
}

/// Parses a big-endian hexadecimal number from ASCII bytes.
///
/// Succeeds exactly on non-empty all-hex-digit input whose value fits in 32
/// bits. Bytes that are not valid UTF-8 are reported as such; any other
/// failure is a malformed integer.
pub fn from_hex(input: &Vec<u8>) -> (r: Result<u32, ParseError>)
    ensures
        r matches Ok(v) ==> {
            &&& input@.len() > 0
            &&& forall|i: int| 0 <= i < input@.len() ==> is_hex_digit(#[trigger] input@[i])
            &&& v == hex_seq_val(input@)
        },
        (r matches Err(e) && e == ParseError::Utf8) <==> !is_utf8(input@),
        (r matches Err(e) && e == ParseError::Integer) <==> (is_utf8(input@) && (input@.len() == 0
            || (exists|i: int| 0 <= i < input@.len() && !is_hex_digit(#[trigger] input@[i]))
            || hex_seq_val(input@) > u32::MAX)),
        r is Ok <==> (input@.len() > 0 && (forall|i: int|
            0 <= i < input@.len() ==> is_hex_digit(#[trigger] input@[i])) && hex_seq_val(input@)
            <= u32::MAX),
{
    if !utf8_check(input) {
        proof {
            if forall|i: int| 0 <= i < input@.len() ==> is_hex_digit(#[trigger] input@[i]) {
                lemma_all_hex_utf8(input@);
            }
        }
        return Err(ParseError::Utf8);
    }
    if input.len() == 0 {
        return Err(ParseError::Integer);
    }
    let mut acc: u64 = 0;
    let mut i: usize = 0;
    while i < input.len()
        invariant
            0 <= i <= input@.len(),
            input@.len() > 0,
            is_utf8(input@),
            forall|j: int| 0 <= j < i ==> is_hex_digit(#[trigger] input@[j]),
            acc == hex_seq_val(input@.take(i as int)),
            acc <= u32::MAX,
        decreases input@.len() - i,
    {
        let c = input[i];
        let d: u8 = if 0x30 <= c && c <= 0x39 {
            c - 0x30
        } else if 0x41 <= c && c <= 0x46 {
            c - 0x41 + 10
        } else if 0x61 <= c && c <= 0x66 {
            c - 0x61 + 10
        } else {
            proof {
                assert(!is_hex_digit(input@[i as int]));
                lemma_hex_seq_bad_digit(input@, i as int);
            }
            return Err(ParseError::Integer);
        };
        assert(is_hex_digit(c) && d == hex_digit_val(c as u8));
        let next = acc * 16 + d as u64;
        proof {
            assert(input@.take(i + 1).drop_last() =~= input@.take(i as int));
            assert(input@.take(i + 1).last() == input@[i as int]);
        }
        if next > 0xFFFF_FFFF {
            proof {
                if forall|j: int| 0 <= j < input@.len() ==> is_hex_digit(#[trigger] input@[j]) {
                    lemma_hex_seq_monotone(input@, i + 1);
                }
            }
            return Err(ParseError::Integer);
        }
        acc = next;
        i += 1;
    }
    assert(input@.take(i as int) =~= input@);
    Ok(acc as u32)
}

/// A string of hex digits never gets smaller when extended to the right.
proof fn lemma_hex_seq_monotone(s: Seq<u8>, i: int)
    requires
        0 < i <= s.len(),
        forall|j: int| 0 <= j < s.len() ==> is_hex_digit(#[trigger] s[j]),
    ensures
        hex_seq_val(s) >= hex_seq_val(s.take(i)),
    decreases s.len() - i,
{
    if i == s.len() {
        assert(s.take(i) =~= s);
    } else {
        assert(forall|j: int| 0 <= j < s.take(i).len() ==> is_hex_digit(#[trigger] s.take(i)[j]));
        lemma_hex_seq_nonneg(s.take(i));
        assert(s.take(i + 1).drop_last() =~= s.take(i));
        assert(s.take(i + 1).last() == s[i]);
        assert(hex_seq_val(s.take(i + 1)) == hex_seq_val(s.take(i)) * 16 + hex_digit_val(s[i]));
        assert(hex_seq_val(s.take(i)) * 16 >= hex_seq_val(s.take(i))) by (nonlinear_arith)
            requires
                hex_seq_val(s.take(i)) >= 0,
        ;
        lemma_hex_seq_monotone(s, i + 1);
    }
}

/// A value containing a non-digit cannot be all digits.
proof fn lemma_hex_seq_bad_digit(s: Seq<u8>, i: int)
    requires
        0 <= i < s.len(),
        !is_hex_digit(s[i]),
    ensures
        !(forall|j: int| 0 <= j < s.len() ==> is_hex_digit(#[trigger] s[j])),
{
}

proof fn lemma_hex_seq_nonneg(s: Seq<u8>)
    requires
        forall|j: int| 0 <= j < s.len() ==> is_hex_digit(#[trigger] s[j]),
    ensures
        hex_seq_val(s) >= 0,
    decreases s.len(),
{
    if s.len() > 0 {
        lemma_hex_seq_nonneg(s.drop_last());
        assert(hex_seq_val(s.drop_last()) * 16 >= 0) by (nonlinear_arith)
            requires hex_seq_val(s.drop_last()) >= 0;
    }
}

/// ASCII bytes are valid UTF-8.
pub proof fn lemma_ascii_utf8(s: Seq<u8>)
    requires
        forall|i: int| 0 <= i < s.len() ==> #[trigger] s[i] < 0x80,
    ensures
        is_utf8(s),
    decreases s.len(),
{
    if s.len() > 0 {
        assert(forall|i: int| 0 <= i < s.skip(1).len() ==> #[trigger] s.skip(1)[i] < 0x80);
        lemma_ascii_utf8(s.skip(1));
    }
}

proof fn lemma_all_hex_utf8(s: Seq<u8>)
    requires
        forall|i: int| 0 <= i < s.len() ==> is_hex_digit(#[trigger] s[i]),
    ensures
        is_utf8(s),
{
    lemma_ascii_utf8(s);
}

// ---------------------------------------------------------------------------
// Decimal
// ---------------------------------------------------------------------------

/// Whether a byte is an ASCII decimal digit.
pub open spec fn is_dec_digit(c: u8) -> bool {
    0x30 <= c <= 0x39
}

/// The value of a big-endian string of decimal digits.
pub open spec fn dec_seq_val(s: Seq<u8>) -> int
    decreases s.len(),
{
    if s.len() == 0 {
        0
    } else {
        dec_seq_val(s.drop_last()) * 10 + (s.last() - 0x30)
    }
}

proof fn lemma_dec_seq_nonneg(s: Seq<u8>)
    requires
        forall|j: int| 0 <= j < s.len() ==> is_dec_digit(#[trigger] s[j]),
    ensures
        dec_seq_val(s) >= 0,
    decreases s.len(),
{
    if s.len() > 0 {
        lemma_dec_seq_nonneg(s.drop_last());
        assert(dec_seq_val(s.drop_last()) * 10 >= 0) by (nonlinear_arith)
            requires
                dec_seq_val(s.drop_last()) >= 0,
        ;
    }
}

proof fn lemma_dec_seq_monotone(s: Seq<u8>, i: int)
    requires
        0 < i <= s.len(),
        forall|j: int| 0 <= j < s.len() ==> is_dec_digit(#[trigger] s[j]),
    ensures
        dec_seq_val(s) >= dec_seq_val(s.take(i)),
    decreases s.len() - i,
{
    if i == s.len() {
        assert(s.take(i) =~= s);
    } else {
        assert(forall|j: int| 0 <= j < s.take(i).len() ==> is_dec_digit(#[trigger] s.take(i)[j]));
        lemma_dec_seq_nonneg(s.take(i));
        assert(s.take(i + 1).drop_last() =~= s.take(i));
        assert(s.take(i + 1).last() == s[i]);
        assert(dec_seq_val(s.take(i)) * 10 >= dec_seq_val(s.take(i))) by (nonlinear_arith)
            requires
                dec_seq_val(s.take(i)) >= 0,
        ;
        lemma_dec_seq_monotone(s, i + 1);
    }
}

/// Parses a decimal number from ASCII bytes, as metadata values spell
/// widths and counts. Succeeds exactly on non-empty all-digit input whose
/// value fits 64 bits.
pub fn parse_decimal(input: &Vec<u8>) -> (r: Option<u64>)
    ensures
        r matches Some(v) ==> {
            &&& input@.len() > 0
            &&& forall|i: int| 0 <= i < input@.len() ==> is_dec_digit(#[trigger] input@[i])
            &&& v == dec_seq_val(input@)
        },
        r is Some <==> (input@.len() > 0 && (forall|i: int|
            0 <= i < input@.len() ==> is_dec_digit(#[trigger] input@[i])) && dec_seq_val(input@)
            <= u64::MAX),
{
    if input.len() == 0 {
        return None;
    }
    let mut acc: u64 = 0;
    let mut i: usize = 0;
    while i < input.len()
        invariant
            0 <= i <= input@.len(),
            input@.len() > 0,
            forall|j: int| 0 <= j < i ==> is_dec_digit(#[trigger] input@[j]),
            acc == dec_seq_val(input@.take(i as int)),
        decreases input@.len() - i,
    {
        let c = input[i];
        if c < 0x30 || c > 0x39 {
            proof {
                assert(!is_dec_digit(input@[i as int]));
            }
            return None;
        }
        let d = (c - 0x30) as u64;
        proof {
            assert(input@.take(i + 1).drop_last() =~= input@.take(i as int));
            assert(input@.take(i + 1).last() == input@[i as int]);
        }
        if acc > 0x1999_9999_9999_9999 || (acc == 0x1999_9999_9999_9999 && d > 5) {
            proof {
                if forall|j: int| 0 <= j < input@.len() ==> is_dec_digit(#[trigger] input@[j]) {
                    lemma_dec_seq_monotone(input@, i + 1);
                    assert(dec_seq_val(input@.take(i + 1)) == acc * 10 + d);
                }
            }
            return None;
        }
        acc = acc * 10 + d;
        i += 1;
    }
    assert(input@.take(i as int) =~= input@);
    Some(acc)
}

// ---------------------------------------------------------------------------
// UTF-8 validity
// ---------------------------------------------------------------------------

/// Whether a byte is a UTF-8 continuation byte.
pub open spec fn is_utf8_cont(c: u8) -> bool {
    0x80 <= c <= 0xBF
}

/// Whether a byte string is well-formed UTF-8, by the encoding's standard
/// definition (no overlong forms, no surrogates, nothing past U+10FFFF).
pub open spec fn is_utf8(s: Seq<u8>) -> bool
    decreases s.len(),
{
    if s.len() == 0 {
        true
    } else {
        let b0 = s[0];
        if b0 < 0x80 {
            is_utf8(s.skip(1))
        } else if 0xC2 <= b0 <= 0xDF {
            s.len() >= 2 && is_utf8_cont(s[1]) && is_utf8(s.skip(2))
        } else if b0 == 0xE0 {
            s.len() >= 3 && 0xA0 <= s[1] <= 0xBF && is_utf8_cont(s[2]) && is_utf8(s.skip(3))
        } else if (0xE1 <= b0 <= 0xEC) || b0 == 0xEE || b0 == 0xEF {
            s.len() >= 3 && is_utf8_cont(s[1]) && is_utf8_cont(s[2]) && is_utf8(s.skip(3))
        } else if b0 == 0xED {
            s.len() >= 3 && 0x80 <= s[1] <= 0x9F && is_utf8_cont(s[2]) && is_utf8(s.skip(3))
        } else if b0 == 0xF0 {
            s.len() >= 4 && 0x90 <= s[1] <= 0xBF && is_utf8_cont(s[2]) && is_utf8_cont(s[3])
                && is_utf8(s.skip(4))
        } else if 0xF1 <= b0 <= 0xF3 {
            s.len() >= 4 && is_utf8_cont(s[1]) && is_utf8_cont(s[2]) && is_utf8_cont(s[3])
                && is_utf8(s.skip(4))
        } else if b0 == 0xF4 {
            s.len() >= 4 && 0x80 <= s[1] <= 0x8F && is_utf8_cont(s[2]) && is_utf8_cont(s[3])
                && is_utf8(s.skip(4))
        } else {
            false
        }
    }
}

/// Decides UTF-8 validity of a byte string.
pub fn utf8_check(input: &Vec<u8>) -> (r: bool)
    ensures
        r == is_utf8(input@),
{
    let n = input.len();
    let mut i: usize = 0;
    assert(input@.skip(0) =~= input@);
    while i < n
        invariant
            0 <= i <= n,
            n == input@.len(),
            is_utf8(input@) == is_utf8(input@.skip(i as int)),
        decreases n - i,
    {
        let ghost tail = input@.skip(i as int);
        let b0 = input[i];
        assert(tail[0] == b0);
        let step: usize = if b0 < 0x80 {
            1
        } else if 0xC2 <= b0 && b0 <= 0xDF {
            if !(n - i > 1 && 0x80 <= input[i + 1] && input[i + 1] <= 0xBF) {
                assert(tail.len() >= 2 ==> tail[1] == input@[i + 1]);
                assert(!is_utf8(tail));
                return false;
            }
            2
        } else if b0 == 0xE0 {
            if !(n - i > 2 && 0xA0 <= input[i + 1] && input[i + 1] <= 0xBF && 0x80 <= input[i + 2]
                && input[i + 2] <= 0xBF) {
                assert(tail.len() >= 2 ==> tail[1] == input@[i + 1]);
                assert(tail.len() >= 3 ==> tail[2] == input@[i + 2]);
                assert(!is_utf8(tail));
                return false;
            }
            3
        } else if (0xE1 <= b0 && b0 <= 0xEC) || b0 == 0xEE || b0 == 0xEF {
            if !(n - i > 2 && 0x80 <= input[i + 1] && input[i + 1] <= 0xBF && 0x80 <= input[i + 2]
                && input[i + 2] <= 0xBF) {
                assert(tail.len() >= 2 ==> tail[1] == input@[i + 1]);
                assert(tail.len() >= 3 ==> tail[2] == input@[i + 2]);
                assert(!is_utf8(tail));
                return false;
            }
            3
        } else if b0 == 0xED {
            if !(n - i > 2 && 0x80 <= input[i + 1] && input[i + 1] <= 0x9F && 0x80 <= input[i + 2]
                && input[i + 2] <= 0xBF) {
                assert(tail.len() >= 2 ==> tail[1] == input@[i + 1]);
                assert(tail.len() >= 3 ==> tail[2] == input@[i + 2]);
                assert(!is_utf8(tail));
                return false;
            }
            3
        } else if b0 == 0xF0 {
            if !(n - i > 3 && 0x90 <= input[i + 1] && input[i + 1] <= 0xBF && 0x80 <= input[i + 2]
                && input[i + 2] <= 0xBF && 0x80 <= input[i + 3] && input[i + 3] <= 0xBF) {
                assert(tail.len() >= 2 ==> tail[1] == input@[i + 1]);
                assert(tail.len() >= 3 ==> tail[2] == input@[i + 2]);
                assert(tail.len() >= 4 ==> tail[3] == input@[i + 3]);
                assert(!is_utf8(tail));
                return false;
            }
            4
        } else if 0xF1 <= b0 && b0 <= 0xF3 {
            if !(n - i > 3 && 0x80 <= input[i + 1] && input[i + 1] <= 0xBF && 0x80 <= input[i + 2]
                && input[i + 2] <= 0xBF && 0x80 <= input[i + 3] && input[i + 3] <= 0xBF) {
                assert(tail.len() >= 2 ==> tail[1] == input@[i + 1]);
                assert(tail.len() >= 3 ==> tail[2] == input@[i + 2]);
                assert(tail.len() >= 4 ==> tail[3] == input@[i + 3]);
                assert(!is_utf8(tail));
                return false;
            }
            4
        } else if b0 == 0xF4 {
            if !(n - i > 3 && 0x80 <= input[i + 1] && input[i + 1] <= 0x8F && 0x80 <= input[i + 2]
                && input[i + 2] <= 0xBF && 0x80 <= input[i + 3] && input[i + 3] <= 0xBF) {
                assert(tail.len() >= 2 ==> tail[1] == input@[i + 1]);
                assert(tail.len() >= 3 ==> tail[2] == input@[i + 2]);
                assert(tail.len() >= 4 ==> tail[3] == input@[i + 3]);
                assert(!is_utf8(tail));
                return false;
            }
            4
        } else {
            assert(!is_utf8(tail));
            return false;
        };
        proof {
            assert(tail.len() >= step);
            assert(forall|k: int| 1 <= k < step && k < tail.len() ==> tail[k] == input@[i + k]);
            assert(is_utf8(tail) == is_utf8(tail.skip(step as int)));
            assert(tail.skip(step as int) =~= input@.skip(i + step));
        }
        i += step;
    }
    assert(input@.skip(i as int) =~= Seq::<u8>::empty());
    true
}

/// Validates that bytes are UTF-8 text, handing back the same bytes.
///
/// The UTF-8 requirement is all this checks; the caller keeps working on
/// bytes.
pub fn utf8_string(input: &Vec<u8>) -> (r: Result<Vec<u8>, ParseError>)
    ensures
        r matches Ok(v) ==> v@ == input@ && is_utf8(input@),
        r is Err <==> !is_utf8(input@),
        r matches Err(e) ==> e == ParseError::Utf8,
{
    if utf8_check(input) {
        Ok(clone_bytes(input))
    } else {
        Err(ParseError::Utf8)
    }
}

/// Whether two byte vectors hold the same bytes.
pub fn bytes_eq(a: &Vec<u8>, b: &Vec<u8>) -> (r: bool)
    ensures
        r == (a@ == b@),
{
    if a.len() != b.len() {
        assert(a@ != b@);
        return false;
    }
    let mut i: usize = 0;
    while i < a.len()
        invariant
            0 <= i <= a@.len(),
            a@.len() == b@.len(),
            forall|j: int| 0 <= j < i ==> a@[j] == b@[j],
        decreases a@.len() - i,
    {
        if a[i] != b[i] {
            return false;
        }
        i += 1;
    }
    proof {
        assert(a@ =~= b@);
    }
    true
}

/// Copies the byte window `[start, end)` out of a vector.
pub fn subvec(v: &Vec<u8>, start: usize, end: usize) -> (r: Vec<u8>)
    requires
        start <= end <= v@.len(),
    ensures
        r@ == v@.subrange(start as int, end as int),
{
    let mut out: Vec<u8> = Vec::new();
    let mut i: usize = start;
    while i < end
        invariant
            start <= i <= end <= v@.len(),
            out@ == v@.subrange(start as int, i as int),
        decreases end - i,
    {
        out.push(v[i]);
        assert(out@ =~= v@.subrange(start as int, i + 1));
        i += 1;
    }
    out
}

/// Appends the bytes of `src` to `dst`.
pub fn append_bytes(dst: &mut Vec<u8>, src: &Vec<u8>)
    ensures
        final(dst)@ == old(dst)@ + src@,
{
    let mut i: usize = 0;
    while i < src.len()
        invariant
            0 <= i <= src@.len(),
            dst@ == old(dst)@ + src@.take(i as int),
        decreases src@.len() - i,
    {
        dst.push(src[i]);
        assert(dst@ =~= old(dst)@ + src@.take(i + 1));
        i += 1;
    }
    assert(old(dst)@ + src@.take(i as int) =~= old(dst)@ + src@);
}

/// The first index holding a NUL byte, if any.
pub open spec fn first_nul(s: Seq<u8>) -> Option<int>
    decreases s.len(),
{
    if s.len() == 0 {
        None
    } else if s[0] == 0 {
        Some(0int)
    } else {
        match first_nul(s.skip(1)) {
            None => None,
            Some(i) => Some(i + 1),
        }
    }
}

/// Finds the first NUL byte at or after `start`.
pub fn find_nul(v: &Vec<u8>, start: usize) -> (r: Option<usize>)
    requires
        start <= v@.len(),
    ensures
        r matches Some(i) ==> start <= i < v@.len() && first_nul(v@.skip(start as int)) == Some(
            i - start,
        ),
        r is None ==> first_nul(v@.skip(start as int)) is None,
{
    let ghost tail = v@.skip(start as int);
    let mut i: usize = start;
    while i < v.len()
        invariant
            start <= i <= v@.len(),
            tail == v@.skip(start as int),
            forall|j: int| start <= j < i ==> v@[j] != 0,
        decreases v@.len() - i,
    {
        if v[i] == 0 {
            proof {
                lemma_first_nul_found(tail, i - start);
            }
            return Some(i);
        }
        i += 1;
    }
    proof {
        lemma_first_nul_none(tail);
    }
    None
}

/// A string without a first NUL has no NUL at all.
pub proof fn lemma_no_nul(s: Seq<u8>)
    requires
        first_nul(s) is None,
    ensures
        forall|j: int| 0 <= j < s.len() ==> s[j] != 0,
    decreases s.len(),
{
    if s.len() > 0 {
        assert(s[0] != 0);
        lemma_no_nul(s.skip(1));
        assert forall|j: int| 0 <= j < s.len() implies s[j] != 0 by {
            if j >= 1 {
                assert(s.skip(1)[j - 1] == s[j]);
            }
        };
    }
}

/// Proves where the first NUL stands from a witness.
pub proof fn lemma_first_nul_found(s: Seq<u8>, i: int)
    requires
        0 <= i < s.len(),
        s[i] == 0,
        forall|j: int| 0 <= j < i ==> s[j] != 0,
    ensures
        first_nul(s) == Some(i),
    decreases i,
{
    if i > 0 {
        assert(forall|j: int| 0 <= j < s.skip(1).len() ==> s.skip(1)[j] == s[j + 1]);
        lemma_first_nul_found(s.skip(1), i - 1);
    }
}

proof fn lemma_first_nul_none(s: Seq<u8>)
    requires
        forall|j: int| 0 <= j < s.len() ==> s[j] != 0,
    ensures
        first_nul(s) is None,
    decreases s.len(),
{
    if s.len() > 0 {
        assert(forall|j: int| 0 <= j < s.skip(1).len() ==> s.skip(1)[j] == s[j + 1]);
        lemma_first_nul_none(s.skip(1));
    }
}

/// The first index holding byte `c`, if any.
pub open spec fn first_byte(s: Seq<u8>, c: u8) -> Option<int>
    decreases s.len(),
{
    if s.len() == 0 {
        None
    } else if s[0] == c {
        Some(0int)
    } else {
        match first_byte(s.skip(1), c) {
            None => None,
            Some(i) => Some(i + 1),
        }
    }
}

proof fn lemma_first_byte_found(s: Seq<u8>, c: u8, i: int)
    requires
        0 <= i < s.len(),
        s[i] == c,
        forall|j: int| 0 <= j < i ==> s[j] != c,
    ensures
        first_byte(s, c) == Some(i),
    decreases i,
{
    if i > 0 {
        assert(forall|j: int| 0 <= j < s.skip(1).len() ==> s.skip(1)[j] == s[j + 1]);
        lemma_first_byte_found(s.skip(1), c, i - 1);
    }
}

proof fn lemma_first_byte_none(s: Seq<u8>, c: u8)
    requires
        forall|j: int| 0 <= j < s.len() ==> s[j] != c,
    ensures
        first_byte(s, c) is None,
    decreases s.len(),
{
    if s.len() > 0 {
        assert(forall|j: int| 0 <= j < s.skip(1).len() ==> s.skip(1)[j] == s[j + 1]);
        lemma_first_byte_none(s.skip(1), c);
    }
}

/// Finds the first occurrence of byte `c`.
pub fn find_byte(v: &Vec<u8>, c: u8) -> (r: Option<usize>)
    ensures
        r matches Some(i) ==> first_byte(v@, c) == Some(i as int) && i < v@.len(),
        r is None ==> first_byte(v@, c) is None,
{
    let mut i: usize = 0;
    while i < v.len()
        invariant
            0 <= i <= v@.len(),
            forall|j: int| 0 <= j < i ==> v@[j] != c,
        decreases v@.len() - i,
    {
        if v[i] == c {
            proof {
                lemma_first_byte_found(v@, c, i as int);
            }
            return Some(i);
        }
        i += 1;
    }
    proof {
        lemma_first_byte_none(v@, c);
    }
    None
}

/// Copies a byte vector.
pub fn clone_bytes(input: &Vec<u8>) -> (r: Vec<u8>)
    ensures
        r@ == input@,
{
    let mut out: Vec<u8> = Vec::new();
    let mut i: usize = 0;
    while i < input.len()
        invariant
            0 <= i <= input@.len(),
            out@ == input@.take(i as int),
        decreases input@.len() - i,
    {
        out.push(input[i]);
        assert(out@ =~= input@.take(i + 1));
        i += 1;
    }
    assert(input@.take(i as int) =~= input@);
    out
}

} // verus!
