//! The classic tag-value encoding: `8=...|9=...|...|10=...|`.

use crate::codec::tagvalue::wire::{
    checksum, checksum_field, compute_checksum, first_token, lemma_render_concat, lemma_render_one,
    push_checksum, push_token, read_token, render, three_digits, token_bytes, tokenize, tokens_of,
    tokens_view, valid_separator, RawToken, Token, EQUALS, SOH,
};
use crate::codec::{Buffer, Decoder, Encoder};
use crate::dictionary::{BaseType, Dictionary, DictionaryModel, Group, MemberModel, HEADER, TRAILER};
use crate::message::{AtomModel, AtomicValue, FieldValue, Message, MessageModel, ValueModel};
use crate::text::{
    bytes_eq, copy_range, int_bytes, nat_bytes, number_i64, number_u64, parse_i64, parse_u64,
    push_int, push_nat, string_from_utf8,
};
use vstd::prelude::*;
use vstd::utf8::{decode_utf8, encode_utf8, encode_utf8_decode_utf8, valid_utf8};

pub mod laws;
pub mod round_trip;
pub mod wire;

verus! {

/// Why a message cannot be read.
#[derive(Copy, Clone, Debug, PartialEq, Eq, Structural)]
pub enum DecodeError {
    /// The bytes are not a sequence of `tag=value` tokens in the envelope
    /// of `8`, `9` and `10`.
    BadSyntax,
    /// The checksum field does not hold the checksum of the message.
    BadChecksum,
    /// The body length field does not hold the length of the body.
    BadBodyLength,
    /// The message is of a version that the codec has no dictionary for.
    UnknownBeginString,
    /// A tag is not in the dictionary.
    UnknownTag,
    /// A value is not of the type of its field.
    BadType,
    /// A repeating group does not follow its definition.
    BadGroup,
}

/// Why a message cannot be written.
#[derive(Copy, Clone, Debug, PartialEq, Eq, Structural)]
pub enum EncoderError {
    /// The message does not say that it is of the version of the
    /// dictionary: `BeginString` (tag 8) is missing or differs.
    Dictionary,
    /// The sink did not take the bytes.
    BufferFull,
}

/// The bytes of a scalar on the wire: text in UTF-8, integers in decimal,
/// booleans as `Y` and `N`.
pub open spec fn atom_bytes(a: AtomModel) -> Seq<u8> {
    match a {
        AtomModel::String(s) => encode_utf8(s),
        AtomModel::Int(i) => int_bytes(i as int),
        AtomModel::Boolean(b) => if b {
            seq![89u8]
        } else {
            seq![78u8]
        },
    }
}

/// Whether values of the type are integers.
pub open spec fn is_integer_type(t: BaseType) -> bool {
    t == BaseType::Int || t == BaseType::Length || t == BaseType::SeqNum || t == BaseType::TagNum
}

/// The scalar that the bytes `raw` stand for in a field of type `t`:
/// integer types hold a decimal number of 64 bits, booleans `Y` or `N`,
/// `Char` one character, every other type text in UTF-8.
pub open spec fn parse_atom(t: BaseType, raw: Seq<u8>) -> Option<AtomModel> {
    if is_integer_type(t) {
        match number_i64(raw) {
            Some(i) => Some(AtomModel::Int(i)),
            None => None,
        }
    } else if t == BaseType::Boolean {
        if raw == seq![89u8] {
            Some(AtomModel::Boolean(true))
        } else if raw == seq![78u8] {
            Some(AtomModel::Boolean(false))
        } else {
            None
        }
    } else if !valid_utf8(raw) {
        None
    } else if t == BaseType::Char && decode_utf8(raw).len() != 1 {
        None
    } else {
        Some(AtomModel::String(decode_utf8(raw)))
    }
}

/// The tag that opens each entry of the group that `tag` counts.
pub open spec fn delimiter_for(d: DictionaryModel, tag: u32) -> Option<u32> {
    match d.group_of(tag) {
        Some(MemberModel::Group { delimiter, .. }) => Some(delimiter),
        _ => None,
    }
}

/// The tokens of one field: one token for a scalar; for a group the count,
/// then the tokens of each entry.
pub open spec fn field_tokens(d: DictionaryModel, tag: u32, v: ValueModel) -> Seq<Token>
    decreases v, 0int,
{
    match v {
        ValueModel::Atom(a) => seq![Token { tag, value: atom_bytes(a) }],
        ValueModel::Group(entries) => seq![Token { tag, value: nat_bytes(entries.len()) }]
            + entries_tokens(d, delimiter_for(d, tag), entries, entries.len() as int),
    }
}

/// Which fields of a message are written in one pass over it.
pub enum Filter {
    /// The fields that go between the header and the trailer.
    Body,
    /// The field that opens an entry of a group.
    Delimiter(Option<u32>),
    /// Every field of an entry but the one that opens it.
    Others(Option<u32>),
}

/// Whether the pass `filter` writes the field with tag `tag`.
pub open spec fn keeps(d: DictionaryModel, filter: Filter, tag: u32) -> bool {
    match filter {
        Filter::Body => is_body_tag(d, tag),
        Filter::Delimiter(x) => Some(tag) == x,
        Filter::Others(x) => Some(tag) != x,
    }
}

/// The tokens of the first `k` entries of a group.
pub open spec fn entries_tokens(
    d: DictionaryModel,
    delimiter: Option<u32>,
    entries: Seq<MessageModel>,
    k: int,
) -> Seq<Token>
    decreases entries, k,
{
    if k <= 0 || k > entries.len() {
        Seq::empty()
    } else {
        entries_tokens(d, delimiter, entries, k - 1) + (selected_tokens(
            d,
            entries[k - 1].fields,
            entries[k - 1].fields.len() as int,
            Filter::Delimiter(delimiter),
        ) + selected_tokens(
            d,
            entries[k - 1].fields,
            entries[k - 1].fields.len() as int,
            Filter::Others(delimiter),
        ))
    }
}

/// The tokens of one entry of a group: the field that opens the entry,
/// then the other fields in ascending order of their tags.
pub open spec fn entry_tokens(
    d: DictionaryModel,
    delimiter: Option<u32>,
    fields: Seq<(u32, ValueModel)>,
) -> Seq<Token> {
    selected_tokens(d, fields, fields.len() as int, Filter::Delimiter(delimiter)) + selected_tokens(
        d,
        fields,
        fields.len() as int,
        Filter::Others(delimiter),
    )
}

/// The tokens of those of the first `k` of `fields` that the pass `filter`
/// writes, in the order of the fields.
pub open spec fn selected_tokens(
    d: DictionaryModel,
    fields: Seq<(u32, ValueModel)>,
    k: int,
    filter: Filter,
) -> Seq<Token>
    decreases fields, k,
{
    if k <= 0 || k > fields.len() {
        Seq::empty()
    } else if keeps(d, filter, fields[k - 1].0) {
        selected_tokens(d, fields, k - 1, filter) + field_tokens(
            d,
            fields[k - 1].0,
            fields[k - 1].1,
        )
    } else {
        selected_tokens(d, fields, k - 1, filter)
    }
}

/// Whether `tag` is one of the three tags of the envelope.
pub open spec fn is_envelope_tag(tag: u32) -> bool {
    tag == 8 || tag == 9 || tag == 10
}

/// The tokens of those fields of `m` whose tags are among the first `k` of
/// `layout`, in the order of `layout`. The tags of the envelope are left
/// out.
pub open spec fn layout_tokens(d: DictionaryModel, m: MessageModel, layout: Seq<u32>, k: int) -> Seq<
    Token,
>
    decreases k,
{
    if k <= 0 || k > layout.len() {
        Seq::empty()
    } else if !is_envelope_tag(layout[k - 1]) && m.contains(layout[k - 1]) {
        layout_tokens(d, m, layout, k - 1) + field_tokens(
            d,
            layout[k - 1],
            m.get(layout[k - 1]).unwrap(),
        )
    } else {
        layout_tokens(d, m, layout, k - 1)
    }
}

/// Whether a field with tag `tag` goes between header and trailer.
pub open spec fn is_body_tag(d: DictionaryModel, tag: u32) -> bool {
    !is_envelope_tag(tag) && !d.layout(HEADER as int).contains(tag) && !d.layout(
        TRAILER as int,
    ).contains(tag)
}

/// The tokens of a message between `9` and `10`, in the canonical order:
/// the fields of the header in the order of the standard header, the other
/// fields in ascending order of their tags, the fields of the trailer in
/// the order of the standard trailer.
pub open spec fn flatten(d: DictionaryModel, m: MessageModel) -> Seq<Token> {
    layout_tokens(d, m, d.layout(HEADER as int), d.layout(HEADER as int).len() as int)
        + selected_tokens(d, m.fields, m.fields.len() as int, Filter::Body)
        + layout_tokens(d, m, d.layout(TRAILER as int), d.layout(TRAILER as int).len() as int)
}

/// The bytes of a message up to the checksum field: `8`, `9` with the
/// length of the body, and the body.
pub open spec fn frame(begin: Seq<char>, body: Seq<u8>, sep: u8) -> Seq<u8> {
    token_bytes(Token { tag: 8, value: encode_utf8(begin) }, sep) + token_bytes(
        Token { tag: 9, value: nat_bytes(body.len()) },
        sep,
    ) + body
}

/// The bytes of the message `m` for the dictionary `d` and the separator
/// `sep`. The message has to name the version of the dictionary in its
/// `BeginString` (tag 8).
pub open spec fn encode_bytes(d: DictionaryModel, sep: u8, m: MessageModel) -> Result<
    Seq<u8>,
    EncoderError,
> {
    if m.get(8) == Some(ValueModel::Atom(AtomModel::String(d.version.begin_string_text()))) {
        let pre = frame(d.version.begin_string_text(), render(flatten(d, m), sep), sep);
        Ok(pre + checksum_field(pre, sep))
    } else {
        Err(EncoderError::Dictionary)
    }
}

/// The value of the field whose token stands at `pos`, and the position
/// after it. A field of type `NumInGroup` counts a group, whose entries
/// follow it.
pub open spec fn parse_value(d: DictionaryModel, tokens: Seq<Token>, pos: int) -> Result<
    (ValueModel, int),
    DecodeError,
>
    decreases tokens.len() - pos, 0int, 0int,
{
    if pos < 0 || pos >= tokens.len() {
        Err(DecodeError::BadSyntax)
    } else {
        match d.field_by_tag(tokens[pos].tag) {
            None => Err(DecodeError::UnknownTag),
            Some(f) => if f.base_type == BaseType::NumInGroup {
                match number_u64(tokens[pos].value) {
                    None => Err(DecodeError::BadType),
                    Some(n) => match d.group_of(tokens[pos].tag) {
                        None => Err(DecodeError::BadGroup),
                        Some(g) => match parse_entries(d, g, tokens, pos + 1, n as nat) {
                            Err(e) => Err(e),
                            Ok(r) => Ok((ValueModel::Group(r.0), r.1)),
                        },
                    },
                }
            } else {
                match parse_atom(f.base_type, tokens[pos].value) {
                    None => Err(DecodeError::BadType),
                    Some(a) => Ok((ValueModel::Atom(a), pos + 1)),
                }
            },
        }
    }
}

/// The tag that opens each entry of the group `g`.
pub open spec fn delimiter_of_group(g: MemberModel) -> u32 {
    match g {
        MemberModel::Group { delimiter, .. } => delimiter,
        _ => 0,
    }
}

/// The `n` entries of the group `g` that begin at `pos`, and the position
/// after them. Each entry begins with the delimiter of the group.
pub open spec fn parse_entries(
    d: DictionaryModel,
    g: MemberModel,
    tokens: Seq<Token>,
    pos: int,
    n: nat,
) -> Result<(Seq<MessageModel>, int), DecodeError>
    decreases tokens.len() - pos, 1int, n,
{
    if n == 0 {
        Ok((Seq::empty(), pos))
    } else if pos < 0 || pos >= tokens.len() || tokens[pos].tag != delimiter_of_group(g) {
        Err(DecodeError::BadGroup)
    } else {
        match parse_value(d, tokens, pos) {
            Err(e) => Err(e),
            Ok(first) => if first.1 <= pos || first.1 > tokens.len() {
                Err(DecodeError::BadGroup)
            } else {
                match parse_fields(
                    d,
                    Some(g),
                    tokens,
                    first.1,
                    MessageModel::empty().set(tokens[pos].tag, first.0),
                ) {
                    Err(e) => Err(e),
                    Ok(entry) => if entry.1 < first.1 || entry.1 > tokens.len() {
                        Err(DecodeError::BadGroup)
                    } else {
                        match parse_entries(d, g, tokens, entry.1, (n - 1) as nat) {
                            Err(e) => Err(e),
                            Ok(rest) => Ok((seq![entry.0] + rest.0, rest.1)),
                        }
                    },
                }
            },
        }
    }
}

/// Whether the token at `pos` ends the fields of an entry of `g`: it opens
/// the next entry, or its tag does not belong to the group.
pub open spec fn ends_entry(d: DictionaryModel, g: Option<MemberModel>, tag: u32) -> bool {
    match g {
        Some(group) => tag == delimiter_of_group(group) || !d.group_has(group, tag),
        None => false,
    }
}

/// The message `acc` after the fields from `pos` on have been set in it,
/// and the position after them. Outside a group the fields run to the end;
/// inside an entry of `g` they run until a token ends the entry.
pub open spec fn parse_fields(
    d: DictionaryModel,
    g: Option<MemberModel>,
    tokens: Seq<Token>,
    pos: int,
    acc: MessageModel,
) -> Result<(MessageModel, int), DecodeError>
    decreases tokens.len() - pos, 1int, 0int,
{
    if pos < 0 || pos >= tokens.len() || ends_entry(d, g, tokens[pos].tag) {
        Ok((acc, pos))
    } else {
        match parse_value(d, tokens, pos) {
            Err(e) => Err(e),
            Ok(field) => if field.1 <= pos || field.1 > tokens.len() {
                Err(DecodeError::BadGroup)
            } else {
                parse_fields(d, g, tokens, field.1, acc.set(tokens[pos].tag, field.0))
            },
        }
    }
}

/// Whether `data` ends in a checksum field: `10=`, three digits, separator.
pub open spec fn has_trailer(data: Seq<u8>, sep: u8) -> bool {
    let n = data.len() as int;
    &&& n >= 7
    &&& data[n - 7] == 49u8
    &&& data[n - 6] == 48u8
    &&& data[n - 5] == EQUALS
    &&& three_digits(data.subrange(n - 4, n - 1)) is Some
    &&& data[n - 1] == sep
}

/// The message that the tokens of a body stand for in a message of the
/// version of `d`.
pub open spec fn build(d: DictionaryModel, tokens: Seq<Token>) -> Result<
    MessageModel,
    DecodeError,
> {
    match parse_fields(
        d,
        None,
        tokens,
        0,
        MessageModel::empty().set(
            8,
            ValueModel::Atom(AtomModel::String(d.version.begin_string_text())),
        ),
    ) {
        Err(e) => Err(e),
        Ok(r) => Ok(r.0),
    }
}

/// The message that the bytes `data` stand for, for the dictionary `d` and
/// the separator `sep`, or the first reason why they stand for none: the
/// checksum field is looked for at the end and the checksum is compared
/// first; then come the tokens `8` and `9`, the tokens of the body, the
/// length of the body, and the fields.
pub open spec fn decode_bytes(d: DictionaryModel, sep: u8, data: Seq<u8>) -> Result<
    MessageModel,
    DecodeError,
> {
    let n = data.len() as int;
    if !has_trailer(data, sep) {
        Err(DecodeError::BadSyntax)
    } else {
        let pre = data.subrange(0, n - 7);
        if three_digits(data.subrange(n - 4, n - 1)) != Some(checksum(pre)) {
            Err(DecodeError::BadChecksum)
        } else {
            match first_token(pre, sep) {
                None => Err(DecodeError::BadSyntax),
                Some(t0) => if t0.0.tag != 8 || t0.1 <= 0 || t0.1 > pre.len() {
                    Err(DecodeError::BadSyntax)
                } else if t0.0.value != encode_utf8(d.version.begin_string_text()) {
                    Err(DecodeError::UnknownBeginString)
                } else {
                    match first_token(pre.subrange(t0.1, pre.len() as int), sep) {
                        None => Err(DecodeError::BadSyntax),
                        Some(t1) => if t1.0.tag != 9 || t1.1 <= 0 || t0.1 + t1.1 > pre.len() {
                            Err(DecodeError::BadSyntax)
                        } else {
                            match number_u64(t1.0.value) {
                                None => Err(DecodeError::BadSyntax),
                                Some(length) => {
                                    let body = pre.subrange(t0.1 + t1.1, pre.len() as int);
                                    match tokens_of(body, sep) {
                                        None => Err(DecodeError::BadSyntax),
                                        Some(tokens) => if length != body.len() {
                                            Err(DecodeError::BadBodyLength)
                                        } else {
                                            build(d, tokens)
                                        },
                                    }
                                },
                            }
                        },
                    }
                },
            }
        }
    }
}

/// The bytes of a scalar on the wire.
fn atom_to_bytes(a: &AtomicValue) -> (r: Vec<u8>)
    ensures
        r@ == atom_bytes(a@),
{
    match a {
        AtomicValue::String(s) => copy_range(s.as_str().as_bytes(), 0, s.as_str().as_bytes().len()),
        AtomicValue::Int(i) => {
            let mut out: Vec<u8> = Vec::new();
            push_int(&mut out, *i);
            assert(out@ =~= int_bytes(*i as int));
            out
        },
        AtomicValue::Boolean(b) => {
            let mut out: Vec<u8> = Vec::new();
            out.push(if *b {
                89u8
            } else {
                78u8
            });
            assert(out@ =~= atom_bytes(a@));
            out
        },
    }
}

/// Reads a scalar from its bytes on the wire.
fn read_atom(t: BaseType, raw: &Vec<u8>) -> (r: Option<AtomicValue>)
    ensures
        match r {
            Some(a) => parse_atom(t, raw@) == Some(a@),
            None => parse_atom(t, raw@) is None,
        },
{
    match t {
        BaseType::Int | BaseType::Length | BaseType::SeqNum | BaseType::TagNum => {
            match parse_i64(raw.as_slice()) {
                Some(i) => Some(AtomicValue::Int(i)),
                None => None,
            }
        },
        BaseType::Boolean => {
            if raw.len() == 1 && raw[0] == 89u8 {
                assert(raw@ =~= seq![89u8]);
                Some(AtomicValue::Boolean(true))
            } else if raw.len() == 1 && raw[0] == 78u8 {
                assert(raw@ =~= seq![78u8]);
                Some(AtomicValue::Boolean(false))
            } else {
                None
            }
        },
        _ => {
            let bytes = copy_range(raw.as_slice(), 0, raw.len());
            assert(bytes@ =~= raw@);
            match string_from_utf8(bytes) {
                Some(s) => {
                    proof {
                        encode_utf8_decode_utf8(s@);
                    }
                    match t {
                        BaseType::Char => {
                            if s.as_str().unicode_len() == 1 {
                                Some(AtomicValue::String(s))
                            } else {
                                None
                            }
                        },
                        _ => Some(AtomicValue::String(s)),
                    }
                },
                None => None,
            }
        },
    }
}

/// Which fields of a message one pass writes, with the layouts that the
/// choice depends on.
enum Selection<'a> {
    /// The fields that go between the header and the trailer.
    Body { header: &'a Vec<u32>, trailer: &'a Vec<u32> },
    /// The field that opens an entry of a group.
    Delimiter(Option<u32>),
    /// Every field of an entry but the one that opens it.
    Others(Option<u32>),
}

impl<'a> Selection<'a> {
    /// The filter that the selection stands for.
    spec fn filter(&self) -> Filter {
        match self {
            Selection::Body { .. } => Filter::Body,
            Selection::Delimiter(x) => Filter::Delimiter(*x),
            Selection::Others(x) => Filter::Others(*x),
        }
    }

    /// The layouts are those of the dictionary.
    spec fn fits(&self, d: DictionaryModel) -> bool {
        match self {
            Selection::Body { header, trailer } => header@ == d.layout(HEADER as int) && trailer@
                == d.layout(TRAILER as int),
            _ => true,
        }
    }

    /// Whether the pass writes the field with tag `tag`.
    fn keeps(&self, tag: u32, Ghost(d): Ghost<DictionaryModel>) -> (r: bool)
        requires
            self.fits(d),
        ensures
            r == keeps(d, self.filter(), tag),
    {
        match self {
            Selection::Body { header, trailer } => !(tag == 8 || tag == 9 || tag == 10)
                && !has_tag(header, tag) && !has_tag(trailer, tag),
            Selection::Delimiter(x) => match x {
                Some(t) => *t == tag,
                None => false,
            },
            Selection::Others(x) => match x {
                Some(t) => *t != tag,
                None => true,
            },
        }
    }
}

/// Whether `tags` holds `tag`.
fn has_tag(tags: &Vec<u32>, tag: u32) -> (r: bool)
    ensures
        r == tags@.contains(tag),
{
    let mut i: usize = 0;
    while i < tags.len()
        invariant
            i <= tags.len(),
            forall|j: int| 0 <= j < i ==> tags@[j] != tag,
        decreases tags.len() - i,
    {
        if tags[i] == tag {
            return true;
        }
        i = i + 1;
    }
    false
}

/// Appends the tokens of one field.
fn write_field(dict: &Dictionary, buf: &mut Vec<u8>, tag: u32, value: &FieldValue, sep: u8)
    ensures
        final(buf)@ == old(buf)@ + render(field_tokens(dict@, tag, value.model()), sep),
    decreases value, 1int,
{
    match value {
        FieldValue::Atom(a) => {
            let bytes = atom_to_bytes(a);
            push_token(buf, tag, bytes.as_slice(), sep);
            proof {
                lemma_render_one(Token { tag, value: bytes@ }, sep);
            }
        },
        FieldValue::Group(entries) => {
            let ghost models = value.model()->Group_0;
            let mut digits: Vec<u8> = Vec::new();
            push_nat(&mut digits, entries.len() as u64);
            assert(digits@ =~= nat_bytes(entries.len() as nat));
            push_token(buf, tag, digits.as_slice(), sep);
            let ghost count = Token { tag, value: digits@ };
            let ghost middle = buf@;
            let delimiter = match dict.group_by_counter(tag) {
                Some(g) => Some(g.delimiter()),
                None => None,
            };
            assert(delimiter == delimiter_for(dict@, tag));
            write_entries(dict, buf, entries, sep, delimiter, Ghost(value));
            proof {
                let tail = entries_tokens(dict@, delimiter, models, models.len() as int);
                lemma_render_one(count, sep);
                lemma_render_concat(seq![count], tail, sep);
                assert(buf@ =~= old(buf)@ + (render(seq![count], sep) + render(tail, sep)));
            }
        },
    }
}

/// Appends the tokens of the entries of a group.
fn write_entries(
    dict: &Dictionary,
    buf: &mut Vec<u8>,
    entries: &Vec<Message>,
    sep: u8,
    delimiter: Option<u32>,
    Ghost(parent): Ghost<&FieldValue>,
)
    requires
        *parent == FieldValue::Group(*entries),
    ensures
        final(buf)@ == old(buf)@ + render(
            entries_tokens(
                dict@,
                delimiter,
                parent.model()->Group_0,
                parent.model()->Group_0.len() as int,
            ),
            sep,
        ),
    decreases parent, 0int,
{
    let ghost models = parent.model()->Group_0;
    let mut i: usize = 0;
    assert(render(Seq::<Token>::empty(), sep) =~= Seq::<u8>::empty());
    assert(buf@ =~= old(buf)@ + Seq::<u8>::empty());
    assert(models.len() == entries.len());
    while i < entries.len()
        invariant
            i <= entries.len(),
            models == parent.model()->Group_0,
            models.len() == entries.len(),
            *parent == FieldValue::Group(*entries),
            buf@ == old(buf)@ + render(entries_tokens(dict@, delimiter, models, i as int), sep),
        decreases entries.len() - i,
    {
        let ghost before = entries_tokens(dict@, delimiter, models, i as int);
        assert(models[i as int] == entries[i as int].model());
        proof {
            vstd::std_specs::vec::axiom_vec_index_decreases(*entries, i as int);
            assert((*parent)->Group_0 == *entries);
            assert(decreases_to!(*parent => (*parent)->Group_0));
        }
        write_entry(dict, buf, &entries[i], sep, delimiter);
        proof {
            let fields = models[i as int].fields;
            lemma_render_concat(before, entry_tokens(dict@, delimiter, fields), sep);
            assert(entries_tokens(dict@, delimiter, models, i + 1) == before + entry_tokens(
                dict@,
                delimiter,
                fields,
            ));
        }
        i = i + 1;
    }
}

/// Appends the tokens of one entry of a group.
fn write_entry(
    dict: &Dictionary,
    buf: &mut Vec<u8>,
    entry: &Message,
    sep: u8,
    delimiter: Option<u32>,
)
    ensures
        final(buf)@ == old(buf)@ + render(
            entry_tokens(dict@, delimiter, entry.model().fields),
            sep,
        ),
    decreases entry, 1int,
{
    let ghost fields = entry.model().fields;
    let ghost first = selected_tokens(
        dict@,
        fields,
        fields.len() as int,
        Filter::Delimiter(delimiter),
    );
    let ghost others = selected_tokens(dict@, fields, fields.len() as int, Filter::Others(delimiter));
    write_selected(dict, buf, entry, sep, &Selection::Delimiter(delimiter));
    write_selected(dict, buf, entry, sep, &Selection::Others(delimiter));
    proof {
        lemma_render_concat(first, others, sep);
        assert(buf@ =~= old(buf)@ + (render(first, sep) + render(others, sep)));
    }
}

/// Appends the tokens of those fields of `message` that the pass
/// `selection` writes, in ascending order of their tags.
#[verifier::loop_isolation(false)]
fn write_selected(
    dict: &Dictionary,
    buf: &mut Vec<u8>,
    message: &Message,
    sep: u8,
    selection: &Selection<'_>,
)
    requires
        selection.fits(dict@),
    ensures
        final(buf)@ == old(buf)@ + render(
            selected_tokens(
                dict@,
                message.model().fields,
                message.model().fields.len() as int,
                selection.filter(),
            ),
            sep,
        ),
    decreases message, 0int,
{
    let ghost fields = message.model().fields;
    let ghost filter = selection.filter();
    let mut i: usize = 0;
    assert(render(Seq::<Token>::empty(), sep) =~= Seq::<u8>::empty());
    assert(buf@ =~= old(buf)@ + Seq::<u8>::empty());
    while i < message.len()
        invariant
            i <= fields.len(),
            buf@ == old(buf)@ + render(selected_tokens(dict@, fields, i as int, filter), sep),
        decreases fields.len() - i,
    {
        let item = message.field_at(i);
        proof {
            message.lemma_field_decreases(i as int);
        }
        if selection.keeps(item.0, Ghost(dict@)) {
            let ghost before = selected_tokens(dict@, fields, i as int, filter);
            write_field(dict, buf, item.0, item.1, sep);
            proof {
                lemma_render_concat(before, field_tokens(dict@, item.0, item.1.model()), sep);
            }
        }
        i = i + 1;
    }
}

/// Appends the tokens of those fields of `message` whose tags stand in
/// `layout`, in the order of `layout`.
#[verifier::loop_isolation(false)]
fn write_layout(dict: &Dictionary, buf: &mut Vec<u8>, message: &Message, sep: u8, layout: &Vec<u32>)
    ensures
        final(buf)@ == old(buf)@ + render(
            layout_tokens(dict@, message.model(), layout@, layout.len() as int),
            sep,
        ),
{
    let mut i: usize = 0;
    assert(render(Seq::<Token>::empty(), sep) =~= Seq::<u8>::empty());
    assert(buf@ =~= old(buf)@ + Seq::<u8>::empty());
    while i < layout.len()
        invariant
            i <= layout.len(),
            buf@ == old(buf)@ + render(
                layout_tokens(dict@, message.model(), layout@, i as int),
                sep,
            ),
        decreases layout.len() - i,
    {
        let tag = layout[i];
        if !(tag == 8 || tag == 9 || tag == 10) {
            match message.get(tag) {
                Some(value) => {
                    let ghost before = layout_tokens(dict@, message.model(), layout@, i as int);
                    write_field(dict, buf, tag, value, sep);
                    proof {
                        lemma_render_concat(before, field_tokens(dict@, tag, value.model()), sep);
                    }
                },
                None => {},
            }
        }
        i = i + 1;
    }
}

/// The value of the field whose token stands at `pos`, and the position
/// after it.
fn parse_value_at(dict: &Dictionary, tokens: &Vec<RawToken>, pos: usize) -> (r: Result<
    (FieldValue, usize),
    DecodeError,
>)
    ensures
        match r {
            Ok(field) => parse_value(dict@, tokens_view(tokens@), pos as int) == Ok::<_, DecodeError>(
                (field.0.model(), field.1 as int),
            ) && pos < field.1 <= tokens.len(),
            Err(e) => parse_value(dict@, tokens_view(tokens@), pos as int) == Err::<
                (ValueModel, int),
                _,
            >(e),
        },
    decreases tokens.len() - pos, 0int, 0int,
{
    if pos >= tokens.len() {
        return Err(DecodeError::BadSyntax);
    }
    let token = &tokens[pos];
    assert(tokens_view(tokens@)[pos as int] == token@);
    let field = match dict.field_by_tag(token.tag) {
        Some(f) => f,
        None => {
            return Err(DecodeError::UnknownTag);
        },
    };
    match field.base_type() {
        BaseType::NumInGroup => {
            let count = match parse_u64(token.value.as_slice()) {
                Some(n) => n,
                None => {
                    return Err(DecodeError::BadType);
                },
            };
            let group = match dict.group_by_counter(token.tag) {
                Some(g) => g,
                None => {
                    return Err(DecodeError::BadGroup);
                },
            };
            match parse_entries_at(dict, group, tokens, pos + 1, count) {
                Ok(entries) => {
                    let value = FieldValue::Group(entries.0);
                    assert(value.model()->Group_0 =~= Seq::new(
                        entries.0.len() as nat,
                        |k: int| entries.0[k].model(),
                    ));
                    Ok((value, entries.1))
                },
                Err(e) => Err(e),
            }
        },
        other => match read_atom(other, &token.value) {
            Some(a) => Ok((FieldValue::Atom(a), pos + 1)),
            None => Err(DecodeError::BadType),
        },
    }
}

/// The `n` entries of `group` that begin at `pos`, and the position after
/// them.
#[verifier::loop_isolation(false)]
fn parse_entries_at(
    dict: &Dictionary,
    group: Group<'_>,
    tokens: &Vec<RawToken>,
    pos: usize,
    n: u64,
) -> (r: Result<(Vec<Message>, usize), DecodeError>)
    requires
        pos <= tokens.len(),
        group.dictionary() == dict@,
    ensures
        match r {
            Ok(entries) => parse_entries(
                dict@,
                group.model(),
                tokens_view(tokens@),
                pos as int,
                n as nat,
            ) == Ok::<_, DecodeError>(
                (Seq::new(entries.0.len() as nat, |k: int| entries.0[k].model()), entries.1 as int),
            ) && pos <= entries.1 <= tokens.len(),
            Err(e) => parse_entries(dict@, group.model(), tokens_view(tokens@), pos as int, n as nat)
                == Err::<(Seq<MessageModel>, int), _>(e),
        },
    decreases tokens.len() - pos, 1int, 0int,
{
    let ghost ts = tokens_view(tokens@);
    let ghost g = group.model();
    let delimiter = group.delimiter();
    let mut out: Vec<Message> = Vec::new();
    let mut at: usize = pos;
    let mut left: u64 = n;
    assert(Seq::new(0nat, |k: int| out[k].model()) =~= Seq::<MessageModel>::empty());
    while left > 0
        invariant
            pos <= at <= tokens.len(),
            parse_entries(dict@, g, ts, pos as int, n as nat) == match parse_entries(
                dict@,
                g,
                ts,
                at as int,
                left as nat,
            ) {
                Ok(rest) => Ok((Seq::new(out.len() as nat, |k: int| out[k].model()) + rest.0, rest.1)),
                Err(e) => Err(e),
            },
        decreases left,
    {
        if at >= tokens.len() {
            return Err(DecodeError::BadGroup);
        }
        assert(ts[at as int] == tokens[at as int]@);
        if tokens[at].tag != delimiter {
            return Err(DecodeError::BadGroup);
        }
        let first = match parse_value_at(dict, tokens, at) {
            Ok(f) => f,
            Err(e) => {
                return Err(e);
            },
        };
        let mut entry = Message::new();
        entry.set(tokens[at].tag, first.0);
        let parsed = match parse_fields_at(dict, Some(group), tokens, first.1, entry) {
            Ok(p) => p,
            Err(e) => {
                return Err(e);
            },
        };
        proof {
            let done = Seq::new(out.len() as nat, |k: int| out[k].model());
            match parse_entries(dict@, g, ts, parsed.1 as int, (left - 1) as nat) {
                Ok(rest) => {
                    assert(done + (seq![parsed.0.model()] + rest.0) =~= done.push(
                        parsed.0.model(),
                    ) + rest.0);
                },
                Err(_) => {},
            }
        }
        let ghost done = Seq::new(out.len() as nat, |k: int| out[k].model());
        out.push(parsed.0);
        assert(Seq::new(out.len() as nat, |k: int| out[k].model()) =~= done.push(
            parsed.0.model(),
        ));
        at = parsed.1;
        left = left - 1;
    }
    proof {
        let done = Seq::new(out.len() as nat, |k: int| out[k].model());
        assert(done + Seq::<MessageModel>::empty() =~= done);
    }
    Ok((out, at))
}

/// The model of an optional group.
pub open spec fn group_model(group: Option<Group<'_>>) -> Option<MemberModel> {
    match group {
        Some(g) => Some(g.model()),
        None => None,
    }
}

/// Sets the fields from `pos` on in `acc`, and hands out the position
/// after them.
#[verifier::loop_isolation(false)]
fn parse_fields_at(
    dict: &Dictionary,
    group: Option<Group<'_>>,
    tokens: &Vec<RawToken>,
    pos: usize,
    acc: Message,
) -> (r: Result<(Message, usize), DecodeError>)
    requires
        pos <= tokens.len(),
        group matches Some(g) ==> g.dictionary() == dict@,
    ensures
        match r {
            Ok(parsed) => parse_fields(
                dict@,
                group_model(group),
                tokens_view(tokens@),
                pos as int,
                acc.model(),
            ) == Ok::<_, DecodeError>((parsed.0.model(), parsed.1 as int)) && pos <= parsed.1
                <= tokens.len(),
            Err(e) => parse_fields(
                dict@,
                group_model(group),
                tokens_view(tokens@),
                pos as int,
                acc.model(),
            ) == Err::<(MessageModel, int), _>(e),
        },
    decreases tokens.len() - pos, 1int, 0int,
{
    let ghost ts = tokens_view(tokens@);
    let ghost g = group_model(group);
    let ghost start = acc.model();
    let mut message = acc;
    let mut at: usize = pos;
    loop
        invariant
            pos <= at <= tokens.len(),
            parse_fields(dict@, g, ts, pos as int, start) == parse_fields(
                dict@,
                g,
                ts,
                at as int,
                message.model(),
            ),
        decreases tokens.len() - at,
    {
        if at >= tokens.len() {
            return Ok((message, at));
        }
        assert(ts[at as int] == tokens[at as int]@);
        let tag = tokens[at].tag;
        let stop = match group {
            Some(group) => tag == group.delimiter() || !group.contains_tag(tag),
            None => false,
        };
        assert(stop == ends_entry(dict@, g, tag));
        if stop {
            return Ok((message, at));
        }
        let field = match parse_value_at(dict, tokens, at) {
            Ok(f) => f,
            Err(e) => {
                return Err(e);
            },
        };
        message.set(tag, field.0);
        at = field.1;
    }
}

/// A codec device for the tag-value data format. Its separator is always a
/// byte that can close a token.
#[derive(Debug)]
pub struct Codec {
    dictionary: Dictionary,
    separator: u8,
    message: Message,
}

impl Clone for Codec {
    fn clone(&self) -> (r: Codec)
        ensures
            r.dictionary() == self.dictionary(),
            r.separator() == self.separator(),
            r.message() == self.message(),
    {
        proof {
            use_type_invariant(self);
        }
        Codec {
            dictionary: self.dictionary.clone(),
            separator: self.separator,
            message: self.message.clone(),
        }
    }
}

impl Codec {
    #[verifier::type_invariant]
    spec fn well_formed(&self) -> bool {
        valid_separator(self.separator) && self.dictionary@.wf()
    }

    /// The dictionary of the codec.
    pub closed spec fn dictionary(&self) -> DictionaryModel {
        self.dictionary@
    }

    /// The byte that closes every token.
    pub closed spec fn separator(&self) -> u8 {
        self.separator
    }

    /// The message that the last successful `decode` produced.
    pub closed spec fn message(&self) -> MessageModel {
        self.message.model()
    }

    /// A codec for messages of the version of `dict`, with the separator of
    /// the standard, SOH.
    pub fn with_dict(dict: Dictionary) -> (r: Codec)
        ensures
            r.dictionary() == dict@,
            r.separator() == SOH,
            r.message() == MessageModel::empty(),
            r.dictionary().wf(),
    {
        proof {
            use_type_invariant(&dict);
        }
        Codec { dictionary: dict, separator: SOH, message: Message::new() }
    }

    /// Takes `separator` as the byte that closes every token, if it can be
    /// one; else the codec stays as it is.
    pub fn set_separator(&mut self, separator: u8) -> (accepted: bool)
        ensures
            accepted == valid_separator(separator),
            final(self).dictionary() == old(self).dictionary(),
            final(self).message() == old(self).message(),
            final(self).separator() == if accepted {
                separator
            } else {
                old(self).separator()
            },
    {
        proof {
            use_type_invariant(&*self);
        }
        let digit = 48 <= separator && separator <= 57;
        if digit || separator == EQUALS || separator == 45 || separator == 89 || separator == 78 {
            false
        } else {
            self.separator = separator;
            true
        }
    }

    /// The byte that closes every token.
    pub fn get_separator(&self) -> (r: u8)
        ensures
            r == self.separator(),
            valid_separator(r),
            self.dictionary().wf(),
    {
        proof {
            use_type_invariant(self);
        }
        self.separator
    }

    /// The bytes of `message`.
    pub fn encode_to_vec(&self, message: &Message) -> (r: Result<Vec<u8>, EncoderError>)
        ensures
            match r {
                Ok(bytes) => encode_bytes(self.dictionary(), self.separator(), message.model())
                    == Ok::<_, EncoderError>(bytes@),
                Err(e) => encode_bytes(self.dictionary(), self.separator(), message.model())
                    is Err && e == EncoderError::Dictionary,
            },
    {
        let sep = self.separator;
        let begin = self.dictionary.version().begin_string();
        match message.get(8) {
            Some(FieldValue::Atom(AtomicValue::String(s))) => {
                if !crate::text::str_eq(s.as_str(), begin) {
                    return Err(EncoderError::Dictionary);
                }
            },
            _ => {
                return Err(EncoderError::Dictionary);
            },
        }
        let header = self.dictionary.header_layout();
        let trailer = self.dictionary.trailer_layout();
        let ghost d = self.dictionary@;
        let ghost m = message.model();
        let mut body: Vec<u8> = Vec::new();
        write_layout(&self.dictionary, &mut body, message, sep, &header);
        let ghost part1 = layout_tokens(d, m, header@, header.len() as int);
        write_selected(
            &self.dictionary,
            &mut body,
            message,
            sep,
            &Selection::Body { header: &header, trailer: &trailer },
        );
        let ghost part2 = selected_tokens(d, m.fields, m.fields.len() as int, Filter::Body);
        write_layout(&self.dictionary, &mut body, message, sep, &trailer);
        let ghost part3 = layout_tokens(d, m, trailer@, trailer.len() as int);
        proof {
            lemma_render_concat(part1, part2, sep);
            lemma_render_concat(part1 + part2, part3, sep);
            assert(body@ =~= render(flatten(d, m), sep));
        }
        let mut out: Vec<u8> = Vec::new();
        push_token(&mut out, 8, begin.as_bytes(), sep);
        let mut digits: Vec<u8> = Vec::new();
        push_nat(&mut digits, body.len() as u64);
        assert(digits@ =~= nat_bytes(body@.len()));
        push_token(&mut out, 9, digits.as_slice(), sep);
        crate::text::push_bytes(&mut out, body.as_slice());
        assert(out@ =~= frame(d.version.begin_string_text(), body@, sep));
        let sum = compute_checksum(out.as_slice(), 0, out.len());
        assert(out@.subrange(0, out@.len() as int) =~= out@);
        let ghost pre = out@;
        push_checksum(&mut out, sum, sep);
        assert(out@ =~= pre + checksum_field(pre, sep));
        Ok(out)
    }

    /// Reads the message that `data` holds.
    pub fn decode_from_slice(&self, data: &[u8]) -> (r: Result<Message, DecodeError>)
        ensures
            match r {
                Ok(m) => decode_bytes(self.dictionary(), self.separator(), data@) == Ok::<
                    _,
                    DecodeError,
                >(m.model()),
                Err(e) => decode_bytes(self.dictionary(), self.separator(), data@) == Err::<
                    MessageModel,
                    _,
                >(e),
            },
    {
        let sep = self.separator;
        let n = data.len();
        if n < 7 {
            return Err(DecodeError::BadSyntax);
        }
        let d0 = data[n - 4];
        let d1 = data[n - 3];
        let d2 = data[n - 2];
        let digits_ok = 48 <= d0 && d0 <= 57 && 48 <= d1 && d1 <= 57 && 48 <= d2 && d2 <= 57;
        let ghost tail = data@.subrange(n - 4, n - 1);
        assert(tail[0] == d0 && tail[1] == d1 && tail[2] == d2);
        if data[n - 7] != 49u8 || data[n - 6] != 48u8 || data[n - 5] != EQUALS || !digits_ok
            || data[n - 1] != sep {
            return Err(DecodeError::BadSyntax);
        }
        let claimed: u32 = (d0 - 48) as u32 * 100 + (d1 - 48) as u32 * 10 + (d2 - 48) as u32;
        let end = n - 7;
        let sum = compute_checksum(data, 0, end);
        if claimed != sum as u32 {
            return Err(DecodeError::BadChecksum);
        }
        let ghost pre = data@.subrange(0, end as int);
        let t0 = match read_token(data, 0, end, sep) {
            Some(t) => t,
            None => {
                return Err(DecodeError::BadSyntax);
            },
        };
        if t0.0.tag != 8 {
            return Err(DecodeError::BadSyntax);
        }
        let begin = self.dictionary.version().begin_string();
        if !bytes_eq(t0.0.value.as_slice(), begin.as_bytes()) {
            return Err(DecodeError::UnknownBeginString);
        }
        assert(pre.subrange(t0.1 as int, pre.len() as int) =~= data@.subrange(
            t0.1 as int,
            end as int,
        ));
        let t1 = match read_token(data, t0.1, end, sep) {
            Some(t) => t,
            None => {
                return Err(DecodeError::BadSyntax);
            },
        };
        if t1.0.tag != 9 {
            return Err(DecodeError::BadSyntax);
        }
        let length = match parse_u64(t1.0.value.as_slice()) {
            Some(l) => l,
            None => {
                return Err(DecodeError::BadSyntax);
            },
        };
        let start = t0.1 + t1.1;
        assert(pre.subrange(start as int, pre.len() as int) =~= data@.subrange(
            start as int,
            end as int,
        ));
        let tokens = match tokenize(data, start, end, sep) {
            Some(t) => t,
            None => {
                return Err(DecodeError::BadSyntax);
            },
        };
        if length != (end - start) as u64 {
            return Err(DecodeError::BadBodyLength);
        }
        let mut message = Message::new();
        message.set(8, FieldValue::Atom(AtomicValue::String(begin.to_owned())));
        match parse_fields_at(&self.dictionary, None, &tokens, 0, message) {
            Ok(parsed) => Ok(parsed.0),
            Err(e) => Err(e),
        }
    }

    /// Reads the message that `data` holds. On success the message is kept
    /// in the codec and handed out; on failure the codec keeps the message
    /// that it had.
    pub fn decode(&mut self, data: &[u8]) -> (r: Result<&Message, DecodeError>)
        ensures
            final(self).dictionary() == old(self).dictionary(),
            final(self).separator() == old(self).separator(),
            match r {
                Ok(m) => decode_bytes(old(self).dictionary(), old(self).separator(), data@) == Ok::<
                    _,
                    DecodeError,
                >(m.model()) && final(self).message() == m.model(),
                Err(e) => decode_bytes(old(self).dictionary(), old(self).separator(), data@)
                    == Err::<MessageModel, _>(e) && final(self).message() == old(self).message(),
            },
    {
        proof {
            use_type_invariant(&*self);
        }
        match self.decode_from_slice(data) {
            Ok(m) => {
                self.message = m;
                Ok(&self.message)
            },
            Err(e) => Err(e),
        }
    }

    /// Appends the bytes of `message` to `buffer` and returns the number of
    /// bytes written. The sink is full where it does not take the bytes.
    /// Nothing is written on failure.
    pub fn encode<B: Buffer>(&mut self, buffer: &mut B, message: &Message) -> (r: Result<
        usize,
        EncoderError,
    >)
        ensures
            final(self).dictionary() == old(self).dictionary(),
            final(self).separator() == old(self).separator(),
            final(self).message() == old(self).message(),
            match r {
                Ok(n) => encode_bytes(old(self).dictionary(), old(self).separator(), message.model())
                    matches Ok(bytes) && old(buffer).accepts(bytes) && n == bytes.len()
                    && final(buffer).contents() == old(buffer).contents() + bytes,
                Err(EncoderError::Dictionary) => encode_bytes(
                    old(self).dictionary(),
                    old(self).separator(),
                    message.model(),
                ) is Err && final(buffer).contents() == old(buffer).contents(),
                Err(EncoderError::BufferFull) => encode_bytes(
                    old(self).dictionary(),
                    old(self).separator(),
                    message.model(),
                ) matches Ok(bytes) && !old(buffer).accepts(bytes) && final(buffer).contents()
                    == old(buffer).contents(),
            },
    {
        let bytes = match self.encode_to_vec(message) {
            Ok(b) => b,
            Err(e) => {
                return Err(e);
            },
        };
        if buffer.extend(bytes.as_slice()) {
            Ok(bytes.len())
        } else {
            Err(EncoderError::BufferFull)
        }
    }
}

impl Decoder<Message> for Codec {
    type Error = DecodeError;

    fn decode(&mut self, data: &[u8]) -> (r: Result<&Message, Self::Error>)
        ensures
            final(self).dictionary() == old(self).dictionary(),
            final(self).separator() == old(self).separator(),
            match r {
                Ok(m) => decode_bytes(old(self).dictionary(), old(self).separator(), data@) == Ok::<
                    _,
                    DecodeError,
                >(m.model()) && final(self).message() == m.model(),
                Err(e) => decode_bytes(old(self).dictionary(), old(self).separator(), data@)
                    == Err::<MessageModel, _>(e) && final(self).message() == old(self).message(),
            },
    {
        Codec::decode(self, data)
    }
}

impl Encoder<Message> for Codec {
    type Error = EncoderError;

    fn encode<B: Buffer>(&mut self, buffer: &mut B, message: &Message) -> (r: Result<
        usize,
        Self::Error,
    >)
        ensures
            final(self).dictionary() == old(self).dictionary(),
            final(self).separator() == old(self).separator(),
            final(self).message() == old(self).message(),
            match r {
                Ok(n) => encode_bytes(old(self).dictionary(), old(self).separator(), message.model())
                    matches Ok(bytes) && old(buffer).accepts(bytes) && n == bytes.len()
                    && final(buffer).contents() == old(buffer).contents() + bytes,
                Err(EncoderError::Dictionary) => encode_bytes(
                    old(self).dictionary(),
                    old(self).separator(),
                    message.model(),
                ) is Err && final(buffer).contents() == old(buffer).contents(),
                Err(EncoderError::BufferFull) => encode_bytes(
                    old(self).dictionary(),
                    old(self).separator(),
                    message.model(),
                ) matches Ok(bytes) && !old(buffer).accepts(bytes) && final(buffer).contents()
                    == old(buffer).contents(),
            },
    {
        Codec::encode(self, buffer, message)
    }
}


} // verus!
