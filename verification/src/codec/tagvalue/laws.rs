//! What holds of the tag-value codec for every message: a changed byte is
//! noticed. The lemmas that the round trip rests on stand here too.

use crate::codec::tagvalue::wire::{
    byte_sum, checksum, checksum_digits, checksum_field, lemma_byte_sum_update,
    lemma_checksum_digits, lemma_first_token, lemma_tokens_of_render, render, token_bytes,
    valid_separator, Token,
};
use crate::codec::tagvalue::{
    atom_bytes, build, decode_bytes, frame, has_trailer, is_integer_type, parse_atom, parse_fields,
    parse_value, DecodeError,
};
use crate::dictionary::{BaseType, DictionaryModel};
use crate::message::{
    lemma_position, lemma_position_of_entry, lemma_set, AtomModel, MessageModel, ValueModel,
};
use crate::text::{is_digit, lemma_int_bytes, lemma_nat_bytes, nat_bytes, number_u64};
use vstd::assert_by_contradiction;
use vstd::prelude::*;
use vstd::utf8::{encode_utf8, encode_utf8_decode_utf8, encode_utf8_valid_utf8};

verus! {

/// Altering any one byte of a message before its checksum field makes the
/// decoder fail with `BadChecksum`.
pub proof fn law_checksum_detects_change(d: DictionaryModel, sep: u8, data: Seq<u8>, i: int, b: u8)
    requires
        decode_bytes(d, sep, data) is Ok,
        0 <= i < data.len() - 7,
        b != data[i],
    ensures
        decode_bytes(d, sep, data.update(i, b)) == Err::<MessageModel, _>(DecodeError::BadChecksum),
{
    let n = data.len() as int;
    let changed = data.update(i, b);
    let pre = data.subrange(0, n - 7);
    let pre2 = changed.subrange(0, n - 7);
    assert(changed.subrange(n - 4, n - 1) =~= data.subrange(n - 4, n - 1));
    assert(has_trailer(changed, sep));
    assert(pre2 =~= pre.update(i, b));
    lemma_byte_sum_update(pre, i, b);
    let s = byte_sum(pre);
    let delta = b - data[i];
    assert(pre[i] == data[i]);
    assert(byte_sum(pre2) == s + delta);
    assert((s + delta) % 256 != s % 256) by (nonlinear_arith)
        requires
            -256 < delta < 256,
            delta != 0,
    ;
}

/// Whether a scalar is of the kind that fields of type `t` hold: an integer
/// for the integer types, a boolean for `Boolean`, text otherwise, and one
/// character for `Char`.
pub open spec fn atom_conforms(t: BaseType, a: AtomModel) -> bool {
    match a {
        AtomModel::Int(_) => is_integer_type(t),
        AtomModel::Boolean(_) => t == BaseType::Boolean,
        AtomModel::String(s) => !is_integer_type(t) && t != BaseType::Boolean && (t
            == BaseType::Char ==> s.len() == 1),
    }
}

/// A value of the right kind is read back from its bytes as it was.
pub proof fn lemma_atom_round_trip(t: BaseType, a: AtomModel)
    requires
        atom_conforms(t, a),
    ensures
        parse_atom(t, atom_bytes(a)) == Some(a),
{
    match a {
        AtomModel::Int(i) => {
            lemma_int_bytes(i as int);
        },
        AtomModel::Boolean(b) => {
            assert(seq![89u8] != seq![78u8]) by {
                assert(seq![89u8][0] != seq![78u8][0]);
            }
        },
        AtomModel::String(s) => {
            encode_utf8_valid_utf8(s);
            encode_utf8_decode_utf8(s);
        },
    }
}

/// Two sorted messages with the same fields are the same message.
pub proof fn lemma_sorted_messages_equal(a: MessageModel, b: MessageModel)
    requires
        a.sorted(),
        b.sorted(),
        forall|tag: u32| #[trigger] a.get(tag) == b.get(tag),
    ensures
        a == b,
    decreases a.fields.len(),
{
    if a.fields.len() == 0 {
        if b.fields.len() > 0 {
            lemma_position_of_entry(b, 0);
            lemma_position(a, b.fields[0].0, 0);
            assert(a.get(b.fields[0].0) == b.get(b.fields[0].0));
        }
        assert(a.fields =~= b.fields);
    } else {
        let last = a.fields.len() - 1;
        let t = a.fields[last].0;
        lemma_position_of_entry(a, last);
        assert(a.get(t) == b.get(t));
        lemma_position(b, t, 0);
        let q = b.position(t);
        assert(b.contains(t));
        assert(b.fields[q].0 == t && b.fields[q].1 == a.fields[last].1);
        let blast = b.fields.len() - 1;
        assert_by_contradiction!(q == blast, {
            let u = b.fields[blast].0;
            assert(b.fields[q].0 < b.fields[blast].0);
            lemma_position_of_entry(b, blast);
            assert(a.get(u) == b.get(u));
            lemma_position(a, u, 0);
            let p = a.position(u);
            assert(a.contains(u));
            assert(a.fields[p].0 == u);
            if p < last {
                assert(a.fields[p].0 < a.fields[last].0);
            }
        });
        let a2 = MessageModel { fields: a.fields.drop_last() };
        let b2 = MessageModel { fields: b.fields.drop_last() };
        assert forall|tag: u32| #[trigger] a2.get(tag) == b2.get(tag) by {
            lemma_drop_last(a, tag);
            lemma_drop_last(b, tag);
            assert(a.get(tag) == b.get(tag));
        }
        lemma_drop_last(a, t);
        lemma_drop_last(b, t);
        lemma_sorted_messages_equal(a2, b2);
        assert(a.fields =~= a2.fields.push(a.fields[last]));
        assert(b.fields =~= b2.fields.push(b.fields[q]));
        assert(a.fields[last] == b.fields[q]);
    }
}

/// A sorted message without its last field has the fields that it had, but
/// for the last.
pub proof fn lemma_drop_last(m: MessageModel, tag: u32)
    requires
        m.sorted(),
        m.fields.len() > 0,
    ensures
        (MessageModel { fields: m.fields.drop_last() }).sorted(),
        (MessageModel { fields: m.fields.drop_last() }).get(tag) == if tag == m.fields.last().0 {
            None
        } else {
            m.get(tag)
        },
{
    let short = MessageModel { fields: m.fields.drop_last() };
    let last = m.fields.len() - 1;
    assert(short.sorted()) by {
        assert forall|i: int, j: int| 0 <= i < j < short.fields.len() implies (
        #[trigger] short.fields[i]).0 < (#[trigger] short.fields[j]).0 by {
            assert(short.fields[i] == m.fields[i] && short.fields[j] == m.fields[j]);
        }
    }
    lemma_position(m, tag, 0);
    lemma_position(short, tag, 0);
    let p = m.position(tag);
    let q = short.position(tag);
    if short.contains(tag) {
        assert(short.fields[q] == m.fields[q]);
        lemma_position_of_entry(m, q);
        assert(m.fields[q].0 < m.fields[last].0);
    } else if m.contains(tag) && tag != m.fields[last].0 {
        assert(p < last);
        assert(short.fields[p] == m.fields[p]);
        lemma_position_of_entry(short, p);
    } else if tag == m.fields[last].0 {
        lemma_position_of_entry(m, last);
    }
}

/// A framed body is unframed again: the bytes of the envelope around the
/// rendered tokens are read as those tokens.
pub proof fn lemma_envelope(d: DictionaryModel, sep: u8, tokens: Seq<Token>)
    requires
        valid_separator(sep),
        !encode_utf8(d.version.begin_string_text()).contains(sep),
        forall|i: int| 0 <= i < tokens.len() ==> !(#[trigger] tokens[i]).value.contains(sep),
        render(tokens, sep).len() <= u64::MAX,
    ensures
        ({
            let pre = frame(d.version.begin_string_text(), render(tokens, sep), sep);
            decode_bytes(d, sep, pre + checksum_field(pre, sep)) == build(d, tokens)
        }),
{
    let begin = d.version.begin_string_text();
    let body = render(tokens, sep);
    let t8 = Token { tag: 8, value: encode_utf8(begin) };
    let t9 = Token { tag: 9, value: nat_bytes(body.len()) };
    let pre = frame(begin, body, sep);
    let data = pre + checksum_field(pre, sep);
    let n = data.len() as int;
    let c = checksum(pre);
    lemma_checksum_digits(c);
    let field = checksum_field(pre, sep);
    assert(field.len() == 7);
    assert(data.subrange(0, n - 7) =~= pre);
    assert(data.subrange(n - 4, n - 1) =~= checksum_digits(c));
    assert(data[n - 7] == field[0] && data[n - 6] == field[1] && data[n - 5] == field[2]);
    assert(data[n - 1] == field[6]);
    assert(has_trailer(data, sep));
    let rest = token_bytes(t9, sep) + body;
    assert(pre =~= token_bytes(t8, sep) + rest);
    lemma_first_token(t8, rest, sep);
    let u0 = token_bytes(t8, sep).len() as int;
    assert(pre.subrange(u0, pre.len() as int) =~= rest);
    lemma_nat_bytes(body.len());
    assert(!t9.value.contains(sep)) by {
        if t9.value.contains(sep) {
            let i = choose|i: int| 0 <= i < t9.value.len() && t9.value[i] == sep;
            assert(is_digit(t9.value[i]));
        }
    }
    lemma_first_token(t9, body, sep);
    let u1 = token_bytes(t9, sep).len() as int;
    assert(pre.subrange(u0 + u1, pre.len() as int) =~= body);
    assert(number_u64(t9.value) == Some(body.len() as u64));
    lemma_tokens_of_render(tokens, sep);
}

} // verus!
