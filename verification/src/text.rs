//! Text helpers shared by the codecs: decimal numbers as ASCII bytes, and the
//! passage between byte strings and `String`s.

use vstd::prelude::*;
use vstd::utf8::*;

verus! {

/// The ASCII byte of the decimal digit `d`, for `d < 10`.
pub open spec fn digit_byte(d: nat) -> u8 {
    (48 + d) as u8
}

/// Whether `b` is one of the ASCII bytes `0` to `9`.
pub open spec fn is_digit(b: u8) -> bool {
    48 <= b <= 57
}

/// Whether every byte of `s` is an ASCII decimal digit.
pub open spec fn all_digits(s: Seq<u8>) -> bool {
    forall|i: int| 0 <= i < s.len() ==> is_digit(#[trigger] s[i])
}

/// The number that the digit string `s` denotes, most significant digit first.
pub open spec fn digits_value(s: Seq<u8>) -> nat
    decreases s.len(),
{
    if s.len() == 0 {
        0
    } else {
        digits_value(s.drop_last()) * 10 + (s.last() - 48) as nat
    }
}

/// The decimal rendering of `n`: no sign, no leading zero, `0` for zero.
pub open spec fn nat_bytes(n: nat) -> Seq<u8>
    decreases n,
{
    if n < 10 {
        seq![digit_byte(n)]
    } else {
        nat_bytes(n / 10).push(digit_byte(n % 10))
    }
}

/// The number written in `s`, if `s` is a non-empty string of decimal digits.
pub open spec fn parse_nat(s: Seq<u8>) -> Option<nat> {
    if s.len() > 0 && all_digits(s) {
        Some(digits_value(s))
    } else {
        None
    }
}

/// The decimal rendering of `i`, with a leading `-` for negative numbers.
pub open spec fn int_bytes(i: int) -> Seq<u8> {
    if i < 0 {
        seq![45u8] + nat_bytes((-i) as nat)
    } else {
        nat_bytes(i as nat)
    }
}

/// The integer written in `s`: decimal digits after an optional `-`.
pub open spec fn parse_int(s: Seq<u8>) -> Option<int> {
    if s.len() > 0 && s[0] == 45u8 {
        match parse_nat(s.subrange(1, s.len() as int)) {
            Some(n) => Some(-(n as int)),
            None => None,
        }
    } else {
        match parse_nat(s) {
            Some(n) => Some(n as int),
            None => None,
        }
    }
}

/// The number written in `s`, if it fits in 64 bits.
pub open spec fn number_u64(s: Seq<u8>) -> Option<u64> {
    match parse_nat(s) {
        Some(n) => if n <= u64::MAX {
            Some(n as u64)
        } else {
            None
        },
        None => None,
    }
}

/// The number written in `s`, if it fits in 32 bits.
pub open spec fn number_u32(s: Seq<u8>) -> Option<u32> {
    match parse_nat(s) {
        Some(n) => if n <= u32::MAX {
            Some(n as u32)
        } else {
            None
        },
        None => None,
    }
}

/// The number that the text `s` spells as an attribute does: decimal digits
/// after an optional `+`, as `str::parse` reads an unsigned number.
pub open spec fn number_u32_text(s: Seq<u8>) -> Option<u32> {
    if s.len() > 0 && s[0] == 43u8 {
        number_u32(s.subrange(1, s.len() as int))
    } else {
        number_u32(s)
    }
}

/// The signed number written in `s`, if it fits in 64 bits.
pub open spec fn number_i64(s: Seq<u8>) -> Option<i64> {
    match parse_int(s) {
        Some(i) => if i64::MIN <= i <= i64::MAX {
            Some(i as i64)
        } else {
            None
        },
        None => None,
    }
}

/// `nat_bytes` writes digits only, at least one, and `parse_nat` reads the
/// number back.
pub proof fn lemma_nat_bytes(n: nat)
    ensures
        nat_bytes(n).len() > 0,
        all_digits(nat_bytes(n)),
        digits_value(nat_bytes(n)) == n,
        parse_nat(nat_bytes(n)) == Some(n),
        n > 0 ==> nat_bytes(n)[0] != 48u8,
    decreases n,
{
    if n < 10 {
        let s = nat_bytes(n);
        assert(s.drop_last() =~= Seq::<u8>::empty());
        assert(digits_value(s.drop_last()) == 0);
    } else {
        lemma_nat_bytes(n / 10);
        let s = nat_bytes(n);
        assert(s.drop_last() =~= nat_bytes(n / 10));
        assert(s.last() == digit_byte(n % 10));
        assert(s[0] == nat_bytes(n / 10)[0]);
    }
}

/// `int_bytes` and `parse_int` are inverse to each other.
pub proof fn lemma_int_bytes(i: int)
    ensures
        parse_int(int_bytes(i)) == Some(i),
        int_bytes(i).len() > 0,
{
    if i < 0 {
        let n = (-i) as nat;
        lemma_nat_bytes(n);
        let s = int_bytes(i);
        assert(s.subrange(1, s.len() as int) =~= nat_bytes(n));
    } else {
        lemma_nat_bytes(i as nat);
    }
}

/// A longer digit string denotes a number no smaller than any of its prefixes.
pub proof fn lemma_digits_value_prefix(s: Seq<u8>, k: int)
    requires
        all_digits(s),
        0 <= k <= s.len(),
    ensures
        digits_value(s.subrange(0, k)) <= digits_value(s),
    decreases s.len() - k,
{
    if k == s.len() {
        assert(s.subrange(0, k) =~= s);
    } else {
        lemma_digits_value_prefix(s, k + 1);
        let t = s.subrange(0, k + 1);
        assert(t.drop_last() =~= s.subrange(0, k));
        assert(is_digit(s[k]));
    }
}

/// Bytes below 128 are valid UTF-8.
pub proof fn lemma_ascii_is_utf8(bytes: Seq<u8>)
    requires
        forall|i: int| 0 <= i < bytes.len() ==> #[trigger] bytes[i] < 128,
    ensures
        valid_utf8(bytes),
{
    assert forall|i: int| 0 <= i < bytes.len() implies #[trigger] is_leading_byte_width_1(
        bytes[i],
    ) by {
        let b = bytes[i];
        assert(b < 128 ==> b & 0x80 == 0) by (bit_vector);
    }
    assert(bytes.subrange(0, 0) =~= Seq::<u8>::empty());
    assert(valid_utf8(bytes.subrange(0, 0)));
    partial_valid_utf8_extend_ascii_block(bytes, 0, bytes.len() as int);
    assert(bytes.subrange(0, bytes.len() as int) =~= bytes);
}

/// A rendered integer is valid UTF-8.
pub proof fn lemma_int_bytes_utf8(i: int)
    ensures
        valid_utf8(int_bytes(i)),
{
    let s = int_bytes(i);
    if i < 0 {
        lemma_nat_bytes((-i) as nat);
    } else {
        lemma_nat_bytes(i as nat);
    }
    assert forall|k: int| 0 <= k < s.len() implies #[trigger] s[k] < 128 by {
        if i < 0 && k > 0 {
            assert(s[k] == nat_bytes((-i) as nat)[k - 1]);
        }
    }
    lemma_ascii_is_utf8(s);
}


/// `String::from_utf8` of std: a byte vector becomes a `String` when it is
/// valid UTF-8, and the string then encodes to those same bytes.
#[verifier::external_body]
pub(crate) fn string_from_utf8(bytes: Vec<u8>) -> (r: Option<String>)
    ensures
        r is Some <==> valid_utf8(bytes@),
        r matches Some(s) ==> encode_utf8(s@) == bytes@,
{
    String::from_utf8(bytes).ok()
}

/// Appends the decimal rendering of `n` to `buf`.
pub fn push_nat(buf: &mut Vec<u8>, n: u64)
    ensures
        final(buf)@ == old(buf)@ + nat_bytes(n as nat),
    decreases n,
{
    if n >= 10 {
        push_nat(buf, n / 10);
    }
    let d: u8 = (n % 10) as u8;
    buf.push(48 + d);
    assert(final(buf)@ =~= old(buf)@ + nat_bytes(n as nat));
}

/// Appends the decimal rendering of `i` to `buf`.
pub fn push_int(buf: &mut Vec<u8>, i: i64)
    ensures
        final(buf)@ == old(buf)@ + int_bytes(i as int),
{
    if i < 0 {
        buf.push(45u8);
        let magnitude: u64 = if i == i64::MIN {
            9223372036854775808u64
        } else {
            (-i) as u64
        };
        push_nat(buf, magnitude);
        assert(final(buf)@ =~= old(buf)@ + int_bytes(i as int));
    } else {
        push_nat(buf, i as u64);
    }
}

/// Appends all of `data` to `buf`.
pub fn push_bytes(buf: &mut Vec<u8>, data: &[u8])
    ensures
        final(buf)@ == old(buf)@ + data@,
{
    let mut i: usize = 0;
    while i < data.len()
        invariant
            i <= data.len(),
            buf@ == old(buf)@ + data@.subrange(0, i as int),
        decreases data.len() - i,
    {
        buf.push(data[i]);
        i = i + 1;
        assert(buf@ =~= old(buf)@ + data@.subrange(0, i as int));
    }
    assert(data@.subrange(0, i as int) =~= data@);
}

/// A fresh vector holding `data[from..to]`.
pub fn copy_range(data: &[u8], from: usize, to: usize) -> (r: Vec<u8>)
    requires
        from <= to <= data.len(),
    ensures
        r@ == data@.subrange(from as int, to as int),
{
    let mut out: Vec<u8> = Vec::new();
    let mut i: usize = from;
    while i < to
        invariant
            from <= i <= to <= data.len(),
            out@ == data@.subrange(from as int, i as int),
        decreases to - i,
    {
        out.push(data[i]);
        i = i + 1;
        assert(out@ =~= data@.subrange(from as int, i as int));
    }
    out
}

/// Whether two byte strings are equal.
pub fn bytes_eq(a: &[u8], b: &[u8]) -> (r: bool)
    ensures
        r == (a@ == b@),
{
    if a.len() != b.len() {
        return false;
    }
    let mut i: usize = 0;
    while i < a.len()
        invariant
            i <= a.len(),
            a.len() == b.len(),
            a@.subrange(0, i as int) == b@.subrange(0, i as int),
        decreases a.len() - i,
    {
        if a[i] != b[i] {
            return false;
        }
        i = i + 1;
        assert(a@.subrange(0, i as int) =~= a@.subrange(0, i - 1).push(a@[i - 1]));
        assert(b@.subrange(0, i as int) =~= b@.subrange(0, i - 1).push(b@[i - 1]));
    }
    assert(a@.subrange(0, i as int) =~= a@);
    assert(b@.subrange(0, i as int) =~= b@);
    true
}

/// Reads a decimal number: `Some` when `s` is a non-empty digit string whose
/// value fits in 64 bits.
pub fn parse_u64(s: &[u8]) -> (r: Option<u64>)
    ensures
        r == number_u64(s@),
{
    if s.len() == 0 {
        return None;
    }
    let mut acc: u64 = 0;
    let mut i: usize = 0;
    while i < s.len()
        invariant
            i <= s.len(),
            all_digits(s@.subrange(0, i as int)),
            acc == digits_value(s@.subrange(0, i as int)),
        decreases s.len() - i,
    {
        let b: u8 = s[i];
        if b < 48 || b > 57 {
            assert(!is_digit(s@[i as int]));
            return None;
        }
        let d: u64 = (b - 48) as u64;
        proof {
            let t = s@.subrange(0, i + 1);
            assert(t.drop_last() =~= s@.subrange(0, i as int));
            assert(t.last() == b);
            assert forall|k: int| 0 <= k < t.len() implies is_digit(#[trigger] t[k]) by {
                if k < i {
                    assert(t[k] == s@.subrange(0, i as int)[k]);
                }
            }
        }
        if acc > (u64::MAX - d) / 10 {
            proof {
                if all_digits(s@) {
                    lemma_digits_value_prefix(s@, i + 1);
                }
            }
            return None;
        }
        acc = acc * 10 + d;
        i = i + 1;
    }
    assert(s@.subrange(0, i as int) =~= s@);
    Some(acc)
}

/// Whether two string slices hold the same characters: they do where their
/// bytes are the same.
pub fn str_eq(a: &str, b: &str) -> (r: bool)
    ensures
        r == (a@ == b@),
{
    proof {
        encode_utf8_decode_utf8(a@);
        encode_utf8_decode_utf8(b@);
    }
    bytes_eq(a.as_bytes(), b.as_bytes())
}

/// Reads a tag or an identifier: a decimal number that fits in 32 bits.
pub fn parse_u32(s: &[u8]) -> (r: Option<u32>)
    ensures
        r == number_u32(s@),
{
    match parse_u64(s) {
        Some(n) => if n <= 0xffff_ffff {
            Some(n as u32)
        } else {
            None
        },
        None => None,
    }
}

/// Reads the number of an attribute: decimal digits after an optional `+`,
/// of a value that fits in 32 bits.
pub fn parse_u32_text(s: &[u8]) -> (r: Option<u32>)
    ensures
        r == number_u32_text(s@),
{
    if s.len() > 0 && s[0] == 43u8 {
        let rest = copy_range(s, 1, s.len());
        parse_u32(rest.as_slice())
    } else {
        parse_u32(s)
    }
}

/// Reads a signed decimal number that fits in 64 bits.
pub fn parse_i64(s: &[u8]) -> (r: Option<i64>)
    ensures
        r == number_i64(s@),
{
    if s.len() > 0 && s[0] == 45u8 {
        let rest = copy_range(s, 1, s.len());
        match parse_u64(rest.as_slice()) {
            Some(n) => if n <= 9223372036854775807u64 {
                Some(-(n as i64))
            } else if n == 9223372036854775808u64 {
                Some(i64::MIN)
            } else {
                None
            },
            None => None,
        }
    } else {
        match parse_u64(s) {
            Some(n) => if n <= 9223372036854775807u64 {
                Some(n as i64)
            } else {
                None
            },
            None => None,
        }
    }
}

} // verus!
