//! The bytes of the tag-value format: tokens of the form `tag=value`, each
//! closed by the separator, and the checksum over them.

use crate::text::{
    copy_range, is_digit, lemma_nat_bytes, nat_bytes, number_u32, parse_u32, push_bytes, push_nat,
};
use vstd::prelude::*;

verus! {

/// The byte `=`.
pub const EQUALS: u8 = 61;

/// The separator of the standard: the control character SOH.
pub const SOH: u8 = 1;

/// One token of a message: a tag and the raw bytes of its value.
pub struct Token {
    pub tag: u32,
    pub value: Seq<u8>,
}

/// A token as it was read from a message.
#[derive(Debug)]
pub struct RawToken {
    pub tag: u32,
    pub value: Vec<u8>,
}

impl View for RawToken {
    type V = Token;

    open spec fn view(&self) -> Token {
        Token { tag: self.tag, value: self.value@ }
    }
}

/// The models of a list of tokens.
pub open spec fn tokens_view(tokens: Seq<RawToken>) -> Seq<Token> {
    tokens.map_values(|t: RawToken| t@)
}

/// Whether `sep` can separate tokens: it is no digit, no `=`, no `-`, and
/// neither `Y` nor `N`, so that it occurs in no number and no boolean.
pub open spec fn valid_separator(sep: u8) -> bool {
    !is_digit(sep) && sep != EQUALS && sep != 45 && sep != 89 && sep != 78
}

/// The bytes of one token: the tag in decimal, `=`, the value, the separator.
pub open spec fn token_bytes(t: Token, sep: u8) -> Seq<u8> {
    nat_bytes(t.tag as nat) + seq![EQUALS] + t.value + seq![sep]
}

/// The bytes of a list of tokens, one after the other.
pub open spec fn render(ts: Seq<Token>, sep: u8) -> Seq<u8>
    decreases ts.len(),
{
    if ts.len() == 0 {
        Seq::empty()
    } else {
        render(ts.drop_last(), sep) + token_bytes(ts.last(), sep)
    }
}

/// The sum of the bytes of `s`.
pub open spec fn byte_sum(s: Seq<u8>) -> int
    decreases s.len(),
{
    if s.len() == 0 {
        0
    } else {
        byte_sum(s.drop_last()) + s.last()
    }
}

/// The checksum of `s`: the sum of its bytes modulo 256.
pub open spec fn checksum(s: Seq<u8>) -> int {
    byte_sum(s) % 256
}

/// The three decimal digits of a checksum.
pub open spec fn checksum_digits(c: int) -> Seq<u8> {
    seq![(48 + c / 100) as u8, (48 + (c / 10) % 10) as u8, (48 + c % 10) as u8]
}

/// The number that three decimal digits spell, if they are digits.
pub open spec fn three_digits(s: Seq<u8>) -> Option<int> {
    if s.len() == 3 && is_digit(s[0]) && is_digit(s[1]) && is_digit(s[2]) {
        Some((s[0] - 48) * 100 + (s[1] - 48) * 10 + (s[2] - 48))
    } else {
        None
    }
}

/// The checksum field that closes a message whose other bytes are `s`.
pub open spec fn checksum_field(s: Seq<u8>, sep: u8) -> Seq<u8> {
    seq![49u8, 48u8, EQUALS] + checksum_digits(checksum(s)) + seq![sep]
}

/// The first position at or after `from` at which `s` holds `b`; the length
/// of `s` where there is none.
pub open spec fn index_of_byte(s: Seq<u8>, b: u8, from: int) -> int
    decreases s.len() - from,
{
    if from < 0 || from >= s.len() {
        s.len() as int
    } else if s[from] == b {
        from
    } else {
        index_of_byte(s, b, from + 1)
    }
}

/// The token at the start of `s` and the number of bytes that it takes: the
/// bytes before the first `=` are the tag, a decimal number of 32 bits, and
/// the bytes after it, up to the next separator, are the value.
pub open spec fn first_token(s: Seq<u8>, sep: u8) -> Option<(Token, int)> {
    let eq = index_of_byte(s, EQUALS, 0);
    if eq >= s.len() {
        None
    } else {
        match number_u32(s.subrange(0, eq)) {
            None => None,
            Some(tag) => {
                let end = index_of_byte(s, sep, eq + 1);
                if end >= s.len() {
                    None
                } else {
                    Some((Token { tag, value: s.subrange(eq + 1, end) }, end + 1))
                }
            },
        }
    }
}

/// The tokens that `s` consists of, or `None` where `s` is not a sequence
/// of tokens.
pub open spec fn tokens_of(s: Seq<u8>, sep: u8) -> Option<Seq<Token>>
    decreases s.len(),
{
    if s.len() == 0 {
        Some(Seq::empty())
    } else {
        match first_token(s, sep) {
            None => None,
            Some((t, used)) => if used <= 0 || used > s.len() {
                None
            } else {
                match tokens_of(s.subrange(used, s.len() as int), sep) {
                    None => None,
                    Some(rest) => Some(seq![t] + rest),
                }
            },
        }
    }
}

/// The first occurrence of `b` at or after `from` is at `at`, where `b`
/// stands at `at` and nowhere between.
pub proof fn lemma_index_of_byte_is(s: Seq<u8>, b: u8, from: int, at: int)
    requires
        0 <= from <= at < s.len(),
        s[at] == b,
        forall|i: int| from <= i < at ==> #[trigger] s[i] != b,
    ensures
        index_of_byte(s, b, from) == at,
    decreases at - from,
{
    if from < at {
        lemma_index_of_byte_is(s, b, from + 1, at);
    }
}

/// Rendering a list of tokens in two parts gives the two renderings, one
/// after the other.
pub proof fn lemma_render_concat(a: Seq<Token>, b: Seq<Token>, sep: u8)
    ensures
        render(a + b, sep) == render(a, sep) + render(b, sep),
    decreases b.len(),
{
    if b.len() == 0 {
        assert(a + b =~= a);
        assert(render(a, sep) + render(b, sep) =~= render(a, sep));
    } else {
        lemma_render_concat(a, b.drop_last(), sep);
        assert((a + b).drop_last() =~= a + b.drop_last());
        assert((a + b).last() == b.last());
        assert(render(a + b, sep) =~= render(a, sep) + render(b, sep));
    }
}

/// The rendering of one token.
pub proof fn lemma_render_one(t: Token, sep: u8)
    ensures
        render(seq![t], sep) == token_bytes(t, sep),
{
    let one = seq![t];
    assert(one.drop_last() =~= Seq::<Token>::empty());
    assert(one.last() == t);
    assert(render(one.drop_last(), sep) =~= Seq::<u8>::empty());
    assert(render(one, sep) == render(one.drop_last(), sep) + token_bytes(one.last(), sep));
    assert(render(one, sep) =~= token_bytes(t, sep));
}

/// A rendered token is read back as it was, in front of whatever follows,
/// as long as its value holds no separator.
pub proof fn lemma_first_token(t: Token, rest: Seq<u8>, sep: u8)
    requires
        valid_separator(sep),
        !t.value.contains(sep),
    ensures
        first_token(token_bytes(t, sep) + rest, sep) == Some((t, token_bytes(t, sep).len() as int)),
{
    let digits = nat_bytes(t.tag as nat);
    let s = token_bytes(t, sep) + rest;
    lemma_nat_bytes(t.tag as nat);
    let eq = digits.len() as int;
    assert(s[eq] == EQUALS);
    assert forall|i: int| 0 <= i < eq implies #[trigger] s[i] != EQUALS by {
        assert(s[i] == digits[i]);
        assert(is_digit(digits[i]));
    }
    lemma_index_of_byte_is(s, EQUALS, 0, eq);
    assert(s.subrange(0, eq) =~= digits);
    let end = eq + 1 + t.value.len();
    assert(s[end] == sep);
    assert forall|i: int| eq + 1 <= i < end implies #[trigger] s[i] != sep by {
        assert(s[i] == t.value[i - eq - 1]);
        assert(t.value.contains(t.value[i - eq - 1]));
    }
    lemma_index_of_byte_is(s, sep, eq + 1, end);
    assert(s.subrange(eq + 1, end) =~= t.value);
}

/// Rendered tokens are read back as they were: tokenizing is the inverse of
/// rendering, as long as no value holds the separator.
pub proof fn lemma_tokens_of_render(ts: Seq<Token>, sep: u8)
    requires
        valid_separator(sep),
        forall|i: int| 0 <= i < ts.len() ==> !(#[trigger] ts[i]).value.contains(sep),
    ensures
        tokens_of(render(ts, sep), sep) == Some(ts),
    decreases ts.len(),
{
    if ts.len() == 0 {
    } else {
        let t = ts[0];
        let rest = ts.drop_first();
        assert(ts =~= seq![t] + rest);
        lemma_render_concat(seq![t], rest, sep);
        lemma_render_one(t, sep);
        let s = render(ts, sep);
        let head = token_bytes(t, sep);
        assert(s == head + render(rest, sep));
        lemma_first_token(t, render(rest, sep), sep);
        assert(s.subrange(head.len() as int, s.len() as int) =~= render(rest, sep));
        assert forall|i: int| 0 <= i < rest.len() implies !(#[trigger] rest[i]).value.contains(
            sep,
        ) by {
            assert(rest[i] == ts[i + 1]);
        }
        lemma_tokens_of_render(rest, sep);
        assert(head.len() > 0);
    }
}

/// Changing one byte changes the sum by the difference of the two bytes.
pub proof fn lemma_byte_sum_update(s: Seq<u8>, i: int, b: u8)
    requires
        0 <= i < s.len(),
    ensures
        byte_sum(s.update(i, b)) == byte_sum(s) - s[i] + b,
    decreases s.len(),
{
    let u = s.update(i, b);
    if i == s.len() - 1 {
        assert(u.drop_last() =~= s.drop_last());
    } else {
        lemma_byte_sum_update(s.drop_last(), i, b);
        assert(u.drop_last() =~= s.drop_last().update(i, b));
    }
}

/// The three digits of a checksum are read back as the checksum.
pub proof fn lemma_checksum_digits(c: int)
    requires
        0 <= c < 256,
    ensures
        three_digits(checksum_digits(c)) == Some(c),
        checksum_digits(c).len() == 3,
{
}

/// The sum of the bytes of `data[from..to]`, modulo 256.
pub fn compute_checksum(data: &[u8], from: usize, to: usize) -> (r: u8)
    requires
        from <= to <= data.len(),
    ensures
        r == checksum(data@.subrange(from as int, to as int)),
{
    let mut acc: u32 = 0;
    let mut i: usize = from;
    assert(data@.subrange(from as int, from as int) =~= Seq::<u8>::empty());
    while i < to
        invariant
            from <= i <= to <= data.len(),
            acc < 256,
            acc == byte_sum(data@.subrange(from as int, i as int)) % 256,
        decreases to - i,
    {
        proof {
            let next = data@.subrange(from as int, i + 1);
            assert(next.drop_last() =~= data@.subrange(from as int, i as int));
            assert(next.last() == data@[i as int]);
        }
        acc = (acc + data[i] as u32) % 256;
        i = i + 1;
    }
    acc as u8
}

/// Appends one token to `buf`.
pub fn push_token(buf: &mut Vec<u8>, tag: u32, value: &[u8], sep: u8)
    ensures
        final(buf)@ == old(buf)@ + token_bytes(Token { tag, value: value@ }, sep),
{
    push_nat(buf, tag as u64);
    buf.push(EQUALS);
    push_bytes(buf, value);
    buf.push(sep);
    assert(final(buf)@ =~= old(buf)@ + token_bytes(Token { tag, value: value@ }, sep));
}

/// Appends the checksum field of a message whose checksum is `c`.
pub fn push_checksum(buf: &mut Vec<u8>, c: u8, sep: u8)
    ensures
        final(buf)@ == old(buf)@ + seq![49u8, 48u8, EQUALS] + checksum_digits(c as int) + seq![sep],
{
    buf.push(49u8);
    buf.push(48u8);
    buf.push(EQUALS);
    buf.push(48 + c / 100);
    buf.push(48 + (c / 10) % 10);
    buf.push(48 + c % 10);
    buf.push(sep);
    assert(final(buf)@ =~= old(buf)@ + seq![49u8, 48u8, EQUALS] + checksum_digits(c as int)
        + seq![sep]);
}

/// The position of the first `b` in `data[from..to]`, counted from `from`;
/// `to - from` where there is none.
pub fn find_byte(data: &[u8], from: usize, to: usize, b: u8, start: usize) -> (r: usize)
    requires
        from <= start <= to <= data.len(),
    ensures
        r as int == index_of_byte(data@.subrange(from as int, to as int), b, start - from),
        start - from <= r <= to - from,
{
    let ghost s = data@.subrange(from as int, to as int);
    let mut i: usize = start;
    while i < to && data[i] != b
        invariant
            from <= start <= i <= to <= data.len(),
            s == data@.subrange(from as int, to as int),
            index_of_byte(s, b, start - from) == index_of_byte(s, b, i - from),
        decreases to - i,
    {
        assert(s[i - from] == data@[i as int]);
        i = i + 1;
    }
    proof {
        if i < to {
            assert(s[i - from] == data@[i as int]);
        }
    }
    i - from
}

/// Reads the token at the start of `data[from..to]`: the token and the
/// number of bytes that it takes.
pub fn read_token(data: &[u8], from: usize, to: usize, sep: u8) -> (r: Option<(RawToken, usize)>)
    requires
        from <= to <= data.len(),
    ensures
        match r {
            Some((t, used)) => first_token(data@.subrange(from as int, to as int), sep) == Some(
                (t@, used as int),
            ) && 0 < used <= to - from,
            None => first_token(data@.subrange(from as int, to as int), sep) is None,
        },
{
    let ghost s = data@.subrange(from as int, to as int);
    let eq = find_byte(data, from, to, EQUALS, from);
    if eq >= to - from {
        return None;
    }
    let digits = copy_range(data, from, from + eq);
    assert(digits@ =~= s.subrange(0, eq as int));
    let tag = match parse_u32(digits.as_slice()) {
        Some(t) => t,
        None => {
            return None;
        },
    };
    let end = find_byte(data, from, to, sep, from + eq + 1);
    if end >= to - from {
        return None;
    }
    let value = copy_range(data, from + eq + 1, from + end);
    assert(value@ =~= s.subrange(eq + 1, end as int));
    Some((RawToken { tag, value }, end + 1))
}

/// Reads `data[from..to]` as a sequence of tokens.
pub fn tokenize(data: &[u8], from: usize, to: usize, sep: u8) -> (r: Option<Vec<RawToken>>)
    requires
        from <= to <= data.len(),
    ensures
        match r {
            Some(ts) => tokens_of(data@.subrange(from as int, to as int), sep) == Some(
                tokens_view(ts@),
            ),
            None => tokens_of(data@.subrange(from as int, to as int), sep) is None,
        },
{
    let mut out: Vec<RawToken> = Vec::new();
    let mut pos: usize = from;
    let ghost whole = data@.subrange(from as int, to as int);
    assert(tokens_view(out@) =~= Seq::empty());
    while pos < to
        invariant
            from <= pos <= to <= data.len(),
            whole == data@.subrange(from as int, to as int),
            tokens_of(whole, sep) == match tokens_of(data@.subrange(pos as int, to as int), sep) {
                Some(rest) => Some(tokens_view(out@) + rest),
                None => None,
            },
        decreases to - pos,
    {
        let ghost s = data@.subrange(pos as int, to as int);
        match read_token(data, pos, to, sep) {
            Some((t, used)) => {
                proof {
                    assert(s.subrange(used as int, s.len() as int) =~= data@.subrange(
                        pos + used,
                        to as int,
                    ));
                    let before = tokens_view(out@);
                    match tokens_of(data@.subrange(pos + used, to as int), sep) {
                        Some(rest) => {
                            assert(before + (seq![t@] + rest) =~= before.push(t@) + rest);
                        },
                        None => {},
                    }
                }
                let ghost before = tokens_view(out@);
                out.push(t);
                assert(tokens_view(out@) =~= before.push(t@));
                pos = pos + used;
            },
            None => {
                return None;
            },
        }
    }
    proof {
        assert(data@.subrange(pos as int, to as int) =~= Seq::<u8>::empty());
        assert(tokens_view(out@) + Seq::<Token>::empty() =~= tokens_view(out@));
    }
    Some(out)
}

} // verus!
