//! The round trip of the tag-value codec: a well-formed message, repeating
//! groups and all, is read back from its bytes as it was.

use crate::codec::tagvalue::laws::{
    atom_conforms, lemma_atom_round_trip, lemma_envelope, lemma_sorted_messages_equal,
};
use crate::codec::tagvalue::wire::{render, valid_separator, Token};
use crate::codec::tagvalue::{
    atom_bytes, build, decode_bytes, delimiter_for, delimiter_of_group, encode_bytes, ends_entry,
    entries_tokens, entry_tokens, field_tokens, flatten, is_body_tag, is_envelope_tag, keeps,
    layout_tokens, parse_entries, parse_fields, parse_value, selected_tokens, DecodeError, Filter,
};
use crate::dictionary::{BaseType, DictionaryModel, MemberModel, HEADER, TRAILER};
use crate::message::{
    lemma_position, lemma_position_of_entry, lemma_set, AtomModel, MessageModel, ValueModel,
};
use crate::text::{is_digit, lemma_nat_bytes, nat_bytes, number_u64};
use vstd::prelude::*;

verus! {

/// The tags of the fields of a message.
pub open spec fn tags_of(m: MessageModel) -> Set<u32> {
    Set::new(|t: u32| m.contains(t))
}

/// Whether the value `v` of the field `tag` is well-formed where any of the
/// tags `outer` may follow it: a scalar is of the type of its field and
/// holds no separator; a group is counted by a field of type `NumInGroup`
/// that has a definition, each of the tags that may follow ends its last
/// entry, and each of its entries is well-formed.
pub open spec fn value_wf(d: DictionaryModel, sep: u8, tag: u32, v: ValueModel, outer: Set<u32>) -> bool
    decreases v, 0int,
{
    match v {
        ValueModel::Atom(a) => match d.field_by_tag(tag) {
            Some(f) => f.base_type != BaseType::NumInGroup && atom_conforms(f.base_type, a)
                && !atom_bytes(a).contains(sep),
            None => false,
        },
        ValueModel::Group(entries) => match (d.field_by_tag(tag), d.group_of(tag)) {
            (Some(f), Some(g)) => {
                &&& f.base_type == BaseType::NumInGroup
                &&& g is Group
                &&& entries.len() <= u64::MAX
                &&& forall|u: u32| outer.contains(u) ==> #[trigger] ends_entry(d, Some(g), u)
                &&& forall|i: int|
                    0 <= i < entries.len() ==> entry_wf(d, sep, g, #[trigger] entries[i], outer)
            },
            _ => false,
        },
    }
}

/// The tags that may follow a field of the entry `m` of the group `g`: the
/// tags of the entry, the tag that opens the next entry, and what may
/// follow the group.
pub open spec fn inside(g: MemberModel, m: MessageModel, outer: Set<u32>) -> Set<u32> {
    Set::new(|t: u32| m.contains(t) || t == delimiter_of_group(g) || outer.contains(t))
}

/// Whether `m` is a well-formed entry of the group `g`: its tags ascend, it
/// has the field that opens an entry, its other fields belong to the group,
/// and each value is well-formed.
pub open spec fn entry_wf(
    d: DictionaryModel,
    sep: u8,
    g: MemberModel,
    m: MessageModel,
    outer: Set<u32>,
) -> bool
    decreases m, 1int,
{
    &&& m.sorted()
    &&& m.contains(delimiter_of_group(g))
    &&& forall|k: int|
        0 <= k < m.fields.len() ==> {
            &&& value_wf(d, sep, (#[trigger] m.fields[k]).0, m.fields[k].1, inside(g, m, outer))
            &&& (m.fields[k].0 != delimiter_of_group(g) ==> d.group_has(g, m.fields[k].0))
        }
}

/// Whether the tokens `part` stand in `ts` from `pos` on.
pub open spec fn stands_at(ts: Seq<Token>, pos: int, part: Seq<Token>) -> bool {
    0 <= pos && pos + part.len() <= ts.len() && ts.subrange(pos, pos + part.len()) == part
}

/// Whether the token at `pos`, if there is one, carries one of the tags
/// `outer`.
pub open spec fn followed_by(ts: Seq<Token>, pos: int, outer: Set<u32>) -> bool {
    0 <= pos < ts.len() ==> outer.contains(ts[pos].tag)
}

/// Tokens that stand somewhere stand there part by part.
pub proof fn lemma_stands_split(ts: Seq<Token>, pos: int, a: Seq<Token>, b: Seq<Token>)
    requires
        stands_at(ts, pos, a + b),
    ensures
        stands_at(ts, pos, a),
        stands_at(ts, pos + a.len(), b),
{
    let whole = ts.subrange(pos, pos + (a + b).len());
    assert(ts.subrange(pos, pos + a.len()) =~= whole.subrange(0, a.len() as int));
    assert(whole.subrange(0, a.len() as int) =~= a);
    assert(ts.subrange(pos + a.len(), pos + a.len() + b.len()) =~= whole.subrange(
        a.len() as int,
        (a + b).len() as int,
    ));
    assert(whole.subrange(a.len() as int, (a + b).len() as int) =~= b);
}

/// The tokens of a field begin with a token of its tag.
pub proof fn lemma_field_tokens_head(d: DictionaryModel, tag: u32, v: ValueModel)
    ensures
        field_tokens(d, tag, v).len() > 0,
        field_tokens(d, tag, v)[0].tag == tag,
{
}

/// The message `acc` after those of the fields from `k` on that the pass
/// `filter` writes have been set in it.
pub open spec fn advance(
    d: DictionaryModel,
    acc: MessageModel,
    fields: Seq<(u32, ValueModel)>,
    k: int,
    filter: Filter,
) -> MessageModel
    decreases fields.len() - k,
{
    if k < 0 || k >= fields.len() {
        acc
    } else if keeps(d, filter, fields[k].0) {
        advance(d, acc.set(fields[k].0, fields[k].1), fields, k + 1, filter)
    } else {
        advance(d, acc, fields, k + 1, filter)
    }
}

/// What `advance` leaves in the message: the fields that the pass writes,
/// and what the message held of the others.
pub proof fn lemma_advance(
    d: DictionaryModel,
    acc: MessageModel,
    m: MessageModel,
    k: int,
    filter: Filter,
)
    requires
        m.sorted(),
        acc.sorted(),
        0 <= k <= m.fields.len(),
    ensures
        advance(d, acc, m.fields, k, filter).sorted(),
        forall|tag: u32| #[trigger]
            advance(d, acc, m.fields, k, filter).get(tag) == if m.contains(tag) && m.position(tag)
                >= k && keeps(d, filter, tag) {
                m.get(tag)
            } else {
                acc.get(tag)
            },
    decreases m.fields.len() - k,
{
    if k < m.fields.len() {
        let t = m.fields[k].0;
        let v = m.fields[k].1;
        lemma_position_of_entry(m, k);
        let next = if keeps(d, filter, t) {
            acc.set(t, v)
        } else {
            acc
        };
        lemma_set(acc, t, v);
        lemma_advance(d, next, m, k + 1, filter);
        let r = advance(d, acc, m.fields, k, filter);
        assert forall|tag: u32| #[trigger]
            r.get(tag) == if m.contains(tag) && m.position(tag) >= k && keeps(d, filter, tag) {
                m.get(tag)
            } else {
                acc.get(tag)
            } by {
            lemma_position(m, tag, 0);
            if tag != t {
                assert(next.get(tag) == acc.get(tag));
                if m.contains(tag) {
                    assert(m.position(tag) != k);
                }
            }
        }
    } else {
        assert forall|tag: u32| !(m.contains(tag) && m.position(tag) >= k) by {
            lemma_position(m, tag, 0);
        }
    }
}

/// The tokens of the first fields are a prefix of the tokens of all.
pub proof fn lemma_selected_prefix(
    d: DictionaryModel,
    fields: Seq<(u32, ValueModel)>,
    k: int,
    filter: Filter,
)
    requires
        0 <= k <= fields.len(),
    ensures
        selected_tokens(d, fields, k, filter).len() <= selected_tokens(
            d,
            fields,
            fields.len() as int,
            filter,
        ).len(),
        selected_tokens(d, fields, fields.len() as int, filter).subrange(
            0,
            selected_tokens(d, fields, k, filter).len() as int,
        ) == selected_tokens(d, fields, k, filter),
    decreases fields.len() - k,
{
    let all = selected_tokens(d, fields, fields.len() as int, filter);
    if k == fields.len() {
        assert(all.subrange(0, all.len() as int) =~= all);
    } else {
        lemma_selected_prefix(d, fields, k + 1, filter);
        let next = selected_tokens(d, fields, k + 1, filter);
        let now = selected_tokens(d, fields, k, filter);
        assert(all.subrange(0, now.len() as int) =~= next.subrange(0, now.len() as int));
        assert(next.subrange(0, now.len() as int) =~= now);
    }
}

/// The token that follows the tokens of the first `j` fields of a pass is
/// the first token of a later field of the pass, or the token that follows
/// the pass.
pub proof fn lemma_followed_selected(
    d: DictionaryModel,
    ts: Seq<Token>,
    base: int,
    m: MessageModel,
    filter: Filter,
    j: int,
    inner: Set<u32>,
)
    requires
        0 <= j <= m.fields.len(),
        stands_at(ts, base, selected_tokens(d, m.fields, m.fields.len() as int, filter)),
        forall|x: int|
            0 <= x < m.fields.len() && keeps(d, filter, (#[trigger] m.fields[x]).0)
                ==> inner.contains(m.fields[x].0),
        followed_by(
            ts,
            base + selected_tokens(d, m.fields, m.fields.len() as int, filter).len(),
            inner,
        ),
    ensures
        followed_by(ts, base + selected_tokens(d, m.fields, j, filter).len(), inner),
    decreases m.fields.len() - j,
{
    if j < m.fields.len() {
        lemma_followed_selected(d, ts, base, m, filter, j + 1, inner);
        if keeps(d, filter, m.fields[j].0) {
            lemma_stands_selected(d, ts, base, m, filter, j);
            let part = field_tokens(d, m.fields[j].0, m.fields[j].1);
            let at = base + selected_tokens(d, m.fields, j, filter).len();
            assert(ts.subrange(at, at + part.len())[0] == ts[at]);
        }
    }
}

/// The tokens of a field that a pass writes stand where the tokens of the
/// fields before it end.
pub proof fn lemma_stands_selected(
    d: DictionaryModel,
    ts: Seq<Token>,
    base: int,
    m: MessageModel,
    filter: Filter,
    k: int,
)
    requires
        0 <= k < m.fields.len(),
        keeps(d, filter, m.fields[k].0),
        stands_at(ts, base, selected_tokens(d, m.fields, m.fields.len() as int, filter)),
    ensures
        stands_at(
            ts,
            base + selected_tokens(d, m.fields, k, filter).len(),
            field_tokens(d, m.fields[k].0, m.fields[k].1),
        ),
        selected_tokens(d, m.fields, k + 1, filter).len() == selected_tokens(
            d,
            m.fields,
            k,
            filter,
        ).len() + field_tokens(d, m.fields[k].0, m.fields[k].1).len(),
        base + selected_tokens(d, m.fields, k + 1, filter).len() <= ts.len(),
{
    let all = selected_tokens(d, m.fields, m.fields.len() as int, filter);
    let now = selected_tokens(d, m.fields, k, filter);
    let next = selected_tokens(d, m.fields, k + 1, filter);
    let part = field_tokens(d, m.fields[k].0, m.fields[k].1);
    lemma_selected_prefix(d, m.fields, k + 1, filter);
    assert(next == now + part);
    assert(ts.subrange(base, base + next.len()) =~= ts.subrange(base, base + all.len()).subrange(
        0,
        next.len() as int,
    ));
    assert(stands_at(ts, base, now + part));
    lemma_stands_split(ts, base, now, part);
}

/// The tokens of the pass that writes the field that opens an entry are the
/// tokens of that field.
pub proof fn lemma_delimiter_tokens(d: DictionaryModel, m: MessageModel, delimiter: u32, k: int)
    requires
        m.sorted(),
        m.contains(delimiter),
        0 <= k <= m.fields.len(),
    ensures
        selected_tokens(d, m.fields, k, Filter::Delimiter(Some(delimiter))) == if k > m.position(
            delimiter,
        ) {
            field_tokens(d, delimiter, m.get(delimiter).unwrap())
        } else {
            Seq::<Token>::empty()
        },
    decreases k,
{
    lemma_position(m, delimiter, 0);
    if k > 0 {
        lemma_delimiter_tokens(d, m, delimiter, k - 1);
        lemma_position_of_entry(m, k - 1);
        let prior = selected_tokens(d, m.fields, k - 1, Filter::Delimiter(Some(delimiter)));
        let part = field_tokens(d, delimiter, m.get(delimiter).unwrap());
        if k - 1 == m.position(delimiter) {
            assert(prior + part =~= part);
        } else {
            assert(m.fields[k - 1].0 != delimiter);
        }
    }
}

/// The tokens of the first entries of a group are a prefix of the tokens of
/// all, and the tokens of an entry stand at the end of those before it.
pub proof fn lemma_entries_prefix(
    d: DictionaryModel,
    delimiter: Option<u32>,
    entries: Seq<MessageModel>,
    i: int,
)
    requires
        0 <= i <= entries.len(),
    ensures
        entries_tokens(d, delimiter, entries, i).len() <= entries_tokens(
            d,
            delimiter,
            entries,
            entries.len() as int,
        ).len(),
        entries_tokens(d, delimiter, entries, entries.len() as int).subrange(
            0,
            entries_tokens(d, delimiter, entries, i).len() as int,
        ) == entries_tokens(d, delimiter, entries, i),
        i < entries.len() ==> entries_tokens(d, delimiter, entries, i + 1) == entries_tokens(
            d,
            delimiter,
            entries,
            i,
        ) + entry_tokens(d, delimiter, entries[i].fields),
    decreases entries.len() - i,
{
    let all = entries_tokens(d, delimiter, entries, entries.len() as int);
    if i == entries.len() {
        assert(all.subrange(0, all.len() as int) =~= all);
    } else {
        lemma_entries_prefix(d, delimiter, entries, i + 1);
        let next = entries_tokens(d, delimiter, entries, i + 1);
        let now = entries_tokens(d, delimiter, entries, i);
        assert(next == now + entry_tokens(d, delimiter, entries[i].fields));
        assert(all.subrange(0, now.len() as int) =~= next.subrange(0, now.len() as int));
        assert(next.subrange(0, now.len() as int) =~= now);
    }
}

/// Tokens that stand somewhere stand there with their first part.
pub proof fn lemma_stands_prefix(ts: Seq<Token>, pos: int, whole: Seq<Token>, n: int)
    requires
        stands_at(ts, pos, whole),
        0 <= n <= whole.len(),
    ensures
        stands_at(ts, pos, whole.subrange(0, n)),
{
    assert(ts.subrange(pos, pos + n) =~= ts.subrange(pos, pos + whole.len()).subrange(0, n));
}

/// The value of a field is read back from its tokens, wherever they stand,
/// as long as one of the tags that may follow it follows.
pub proof fn lemma_parse_value(
    d: DictionaryModel,
    sep: u8,
    ts: Seq<Token>,
    pos: int,
    tag: u32,
    v: ValueModel,
    outer: Set<u32>,
)
    requires
        value_wf(d, sep, tag, v, outer),
        stands_at(ts, pos, field_tokens(d, tag, v)),
        followed_by(ts, pos + field_tokens(d, tag, v).len(), outer),
    ensures
        parse_value(d, ts, pos) == Ok::<_, DecodeError>((v, pos + field_tokens(d, tag, v).len())),
    decreases v, 2int, 0int,
{
    let part = field_tokens(d, tag, v);
    assert(ts.subrange(pos, pos + part.len())[0] == ts[pos]);
    match v {
        ValueModel::Atom(a) => {
            let f = d.field_by_tag(tag)->Some_0;
            lemma_atom_round_trip(f.base_type, a);
        },
        ValueModel::Group(entries) => {
            let g = d.group_of(tag)->Some_0;
            let delimiter = Some(delimiter_of_group(g));
            assert(delimiter_for(d, tag) == delimiter);
            let count = Token { tag, value: nat_bytes(entries.len()) };
            let rest = entries_tokens(d, delimiter, entries, entries.len() as int);
            assert(part == seq![count] + rest);
            lemma_stands_split(ts, pos, seq![count], rest);
            lemma_nat_bytes(entries.len());
            assert(number_u64(count.value) == Some(entries.len() as u64));
            assert(entries_tokens(d, delimiter, entries, 0) =~= Seq::<Token>::empty());
            lemma_parse_entries(d, sep, g, ts, pos + 1, entries, 0, outer);
            assert(entries.subrange(0, entries.len() as int) =~= entries);
        },
    }
}

/// The entries of a group from the `i`-th on are read back from their
/// tokens.
pub proof fn lemma_parse_entries(
    d: DictionaryModel,
    sep: u8,
    g: MemberModel,
    ts: Seq<Token>,
    base: int,
    entries: Seq<MessageModel>,
    i: int,
    outer: Set<u32>,
)
    requires
        g is Group,
        0 <= i <= entries.len(),
        forall|u: u32| outer.contains(u) ==> #[trigger] ends_entry(d, Some(g), u),
        forall|x: int| 0 <= x < entries.len() ==> entry_wf(d, sep, g, #[trigger] entries[x], outer),
        stands_at(
            ts,
            base,
            entries_tokens(d, Some(delimiter_of_group(g)), entries, entries.len() as int),
        ),
        followed_by(
            ts,
            base + entries_tokens(
                d,
                Some(delimiter_of_group(g)),
                entries,
                entries.len() as int,
            ).len(),
            outer,
        ),
    ensures
        parse_entries(
            d,
            g,
            ts,
            base + entries_tokens(d, Some(delimiter_of_group(g)), entries, i).len(),
            (entries.len() - i) as nat,
        ) == Ok::<_, DecodeError>(
            (
                entries.subrange(i, entries.len() as int),
                base + entries_tokens(
                    d,
                    Some(delimiter_of_group(g)),
                    entries,
                    entries.len() as int,
                ).len(),
            ),
        ),
    decreases entries, 1int, entries.len() - i,
{
    let delim = delimiter_of_group(g);
    let n = entries.len() as int;
    let all = entries_tokens(d, Some(delim), entries, n);
    let end = base + all.len();
    if i == n {
        assert(entries.subrange(i, n) =~= Seq::<MessageModel>::empty());
    } else {
        let e = entries[i];
        let inner = inside(g, e, outer);
        assert(entry_wf(d, sep, g, e, outer));
        let p = base + entries_tokens(d, Some(delim), entries, i).len();
        let first = selected_tokens(d, e.fields, e.fields.len() as int, Filter::Delimiter(Some(delim)));
        let others = selected_tokens(d, e.fields, e.fields.len() as int, Filter::Others(Some(delim)));
        lemma_entries_prefix(d, Some(delim), entries, i);
        lemma_entries_prefix(d, Some(delim), entries, i + 1);
        let upto = entries_tokens(d, Some(delim), entries, i + 1);
        let next = base + upto.len();
        lemma_stands_prefix(ts, base, all, upto.len() as int);
        assert(upto == entries_tokens(d, Some(delim), entries, i) + (first + others));
        lemma_stands_split(ts, base, entries_tokens(d, Some(delim), entries, i), first + others);
        lemma_stands_split(ts, p, first, others);
        // The entry opens with its delimiter.
        lemma_position(e, delim, 0);
        let pd = e.position(delim);
        let vd = e.fields[pd].1;
        lemma_delimiter_tokens(d, e, delim, e.fields.len() as int);
        assert(first == field_tokens(d, delim, vd));
        lemma_field_tokens_head(d, delim, vd);
        assert(ts.subrange(p, p + first.len())[0] == ts[p]);
        // What follows the entry ends it.
        lemma_entry_end(d, sep, g, ts, base, entries, i, outer);
        assert(followed_by(ts, next, inner));
        assert forall|x: int|
            0 <= x < e.fields.len() && keeps(
                d,
                Filter::Others(Some(delim)),
                (#[trigger] e.fields[x]).0,
            ) implies value_wf(d, sep, e.fields[x].0, e.fields[x].1, inner) && !ends_entry(
            d,
            Some(g),
            e.fields[x].0,
        ) && inner.contains(e.fields[x].0) by {
            lemma_position_of_entry(e, x);
        }
        lemma_followed_selected(d, ts, p + first.len(), e, Filter::Others(Some(delim)), 0, inner);
        assert(selected_tokens(d, e.fields, 0, Filter::Others(Some(delim))) =~= Seq::<
            Token,
        >::empty());
        assert(value_wf(d, sep, e.fields[pd].0, e.fields[pd].1, inner));
        lemma_parse_value(d, sep, ts, p, delim, vd, inner);
        let acc = MessageModel::empty().set(delim, vd);
        lemma_set(MessageModel::empty(), delim, vd);
        lemma_parse_selected(
            d,
            sep,
            Some(g),
            ts,
            p + first.len(),
            e,
            Filter::Others(Some(delim)),
            0,
            acc,
            inner,
        );
        let built = advance(d, acc, e.fields, 0, Filter::Others(Some(delim)));
        lemma_advance(d, acc, e, 0, Filter::Others(Some(delim)));
        assert forall|tag: u32| #[trigger] built.get(tag) == e.get(tag) by {
            lemma_position(e, tag, 0);
            if tag != delim {
                assert(acc.get(tag) == MessageModel::empty().get(tag));
                lemma_position(MessageModel::empty(), tag, 0);
            }
        }
        lemma_sorted_messages_equal(built, e);
        assert(parse_fields(d, Some(g), ts, next, built) == Ok::<_, DecodeError>((built, next)));
        lemma_parse_entries(d, sep, g, ts, base, entries, i + 1, outer);
        assert(seq![e] + entries.subrange(i + 1, n) =~= entries.subrange(i, n));
    }
}

/// The token that follows an entry of a group ends the entry: it opens the
/// next entry, or it is one of the tags that may follow the group.
pub proof fn lemma_entry_end(
    d: DictionaryModel,
    sep: u8,
    g: MemberModel,
    ts: Seq<Token>,
    base: int,
    entries: Seq<MessageModel>,
    i: int,
    outer: Set<u32>,
)
    requires
        g is Group,
        0 <= i < entries.len(),
        forall|u: u32| outer.contains(u) ==> #[trigger] ends_entry(d, Some(g), u),
        forall|x: int| 0 <= x < entries.len() ==> entry_wf(d, sep, g, #[trigger] entries[x], outer),
        stands_at(
            ts,
            base,
            entries_tokens(d, Some(delimiter_of_group(g)), entries, entries.len() as int),
        ),
        followed_by(
            ts,
            base + entries_tokens(
                d,
                Some(delimiter_of_group(g)),
                entries,
                entries.len() as int,
            ).len(),
            outer,
        ),
    ensures
        ({
            let next = base + entries_tokens(d, Some(delimiter_of_group(g)), entries, i + 1).len();
            &&& followed_by(ts, next, inside(g, entries[i], outer))
            &&& 0 <= next <= ts.len()
            &&& (next < ts.len() ==> ends_entry(d, Some(g), ts[next].tag))
        }),
{
    let delim = delimiter_of_group(g);
    let n = entries.len() as int;
    let all = entries_tokens(d, Some(delim), entries, n);
    lemma_entries_prefix(d, Some(delim), entries, i + 1);
    let upto = entries_tokens(d, Some(delim), entries, i + 1);
    let next = base + upto.len();
    if i + 1 < n {
        let e = entries[i + 1];
        assert(entry_wf(d, sep, g, e, outer));
        lemma_entries_prefix(d, Some(delim), entries, i + 2);
        let more = entries_tokens(d, Some(delim), entries, i + 2);
        let first = selected_tokens(d, e.fields, e.fields.len() as int, Filter::Delimiter(Some(delim)));
        let others = selected_tokens(d, e.fields, e.fields.len() as int, Filter::Others(Some(delim)));
        lemma_stands_prefix(ts, base, all, more.len() as int);
        assert(more == upto + (first + others));
        lemma_stands_split(ts, base, upto, first + others);
        lemma_stands_split(ts, next, first, others);
        lemma_position(e, delim, 0);
        lemma_delimiter_tokens(d, e, delim, e.fields.len() as int);
        lemma_field_tokens_head(d, delim, e.get(delim).unwrap());
        assert(ts.subrange(next, next + first.len())[0] == ts[next]);
        assert(ts[next].tag == delim);
    }
}

/// Reading the tokens of one pass over a message sets the fields that the
/// pass writes, from the `k`-th on, and goes on behind them.
pub proof fn lemma_parse_selected(
    d: DictionaryModel,
    sep: u8,
    g: Option<MemberModel>,
    ts: Seq<Token>,
    base: int,
    m: MessageModel,
    filter: Filter,
    k: int,
    acc: MessageModel,
    inner: Set<u32>,
)
    requires
        0 <= k <= m.fields.len(),
        stands_at(ts, base, selected_tokens(d, m.fields, m.fields.len() as int, filter)),
        forall|x: int|
            0 <= x < m.fields.len() && keeps(d, filter, (#[trigger] m.fields[x]).0) ==> value_wf(
                d,
                sep,
                m.fields[x].0,
                m.fields[x].1,
                inner,
            ) && !ends_entry(d, g, m.fields[x].0) && inner.contains(m.fields[x].0),
        followed_by(
            ts,
            base + selected_tokens(d, m.fields, m.fields.len() as int, filter).len(),
            inner,
        ),
    ensures
        parse_fields(d, g, ts, base + selected_tokens(d, m.fields, k, filter).len(), acc)
            == parse_fields(
            d,
            g,
            ts,
            base + selected_tokens(d, m.fields, m.fields.len() as int, filter).len(),
            advance(d, acc, m.fields, k, filter),
        ),
    decreases m, 0int, m.fields.len() - k,
{
    if k < m.fields.len() {
        let tag = m.fields[k].0;
        let v = m.fields[k].1;
        if keeps(d, filter, tag) {
            let part = field_tokens(d, tag, v);
            let q = base + selected_tokens(d, m.fields, k, filter).len();
            lemma_stands_selected(d, ts, base, m, filter, k);
            lemma_followed_selected(d, ts, base, m, filter, k + 1, inner);
            lemma_field_tokens_head(d, tag, v);
            assert(ts.subrange(q, q + part.len())[0] == ts[q]);
            lemma_parse_value(d, sep, ts, q, tag, v, inner);
            lemma_parse_selected(d, sep, g, ts, base, m, filter, k + 1, acc.set(tag, v), inner);
        } else {
            lemma_parse_selected(d, sep, g, ts, base, m, filter, k + 1, acc, inner);
        }
    }
}


/// Whether no value of the tokens holds the separator.
pub open spec fn clean(ts: Seq<Token>, sep: u8) -> bool {
    forall|i: int| 0 <= i < ts.len() ==> !(#[trigger] ts[i]).value.contains(sep)
}

/// Clean tokens after clean tokens are clean tokens.
pub proof fn lemma_clean_concat(a: Seq<Token>, b: Seq<Token>, sep: u8)
    requires
        clean(a, sep),
        clean(b, sep),
    ensures
        clean(a + b, sep),
{
    assert forall|i: int| 0 <= i < (a + b).len() implies !(#[trigger] (a + b)[i]).value.contains(
        sep,
    ) by {
        if i < a.len() {
            assert((a + b)[i] == a[i]);
        } else {
            assert((a + b)[i] == b[i - a.len()]);
        }
    }
}

/// The tokens of a well-formed value hold no separator in their values.
pub proof fn lemma_field_clean(
    d: DictionaryModel,
    sep: u8,
    tag: u32,
    v: ValueModel,
    outer: Set<u32>,
)
    requires
        valid_separator(sep),
        value_wf(d, sep, tag, v, outer),
    ensures
        clean(field_tokens(d, tag, v), sep),
    decreases v, 2int, 0int,
{
    match v {
        ValueModel::Atom(a) => {},
        ValueModel::Group(entries) => {
            let g = d.group_of(tag)->Some_0;
            let delimiter = Some(delimiter_of_group(g));
            assert(delimiter_for(d, tag) == delimiter);
            let count = Token { tag, value: nat_bytes(entries.len()) };
            lemma_nat_bytes(entries.len());
            assert(!count.value.contains(sep)) by {
                if count.value.contains(sep) {
                    let i = choose|i: int| 0 <= i < count.value.len() && count.value[i] == sep;
                    assert(is_digit(count.value[i]));
                }
            }
            assert(clean(seq![count], sep));
            lemma_entries_clean(d, sep, g, entries, entries.len() as int, outer);
            lemma_clean_concat(
                seq![count],
                entries_tokens(d, delimiter, entries, entries.len() as int),
                sep,
            );
        },
    }
}

/// The tokens of well-formed entries hold no separator in their values.
pub proof fn lemma_entries_clean(
    d: DictionaryModel,
    sep: u8,
    g: MemberModel,
    entries: Seq<MessageModel>,
    i: int,
    outer: Set<u32>,
)
    requires
        valid_separator(sep),
        0 <= i <= entries.len(),
        forall|x: int| 0 <= x < entries.len() ==> entry_wf(d, sep, g, #[trigger] entries[x], outer),
    ensures
        clean(entries_tokens(d, Some(delimiter_of_group(g)), entries, i), sep),
    decreases entries, 1int, i,
{
    if i > 0 {
        let delim = delimiter_of_group(g);
        let e = entries[i - 1];
        assert(entry_wf(d, sep, g, e, outer));
        let inner = inside(g, e, outer);
        lemma_entries_clean(d, sep, g, entries, i - 1, outer);
        lemma_selected_clean(
            d,
            sep,
            e,
            e.fields.len() as int,
            Filter::Delimiter(Some(delim)),
            inner,
        );
        lemma_selected_clean(d, sep, e, e.fields.len() as int, Filter::Others(Some(delim)), inner);
        let first = selected_tokens(d, e.fields, e.fields.len() as int, Filter::Delimiter(Some(delim)));
        let others = selected_tokens(d, e.fields, e.fields.len() as int, Filter::Others(Some(delim)));
        lemma_clean_concat(first, others, sep);
        lemma_clean_concat(entries_tokens(d, Some(delim), entries, i - 1), first + others, sep);
    }
}

/// The tokens that a pass writes for well-formed fields hold no separator
/// in their values.
pub proof fn lemma_selected_clean(
    d: DictionaryModel,
    sep: u8,
    m: MessageModel,
    k: int,
    filter: Filter,
    inner: Set<u32>,
)
    requires
        valid_separator(sep),
        0 <= k <= m.fields.len(),
        forall|x: int|
            0 <= x < m.fields.len() ==> value_wf(
                d,
                sep,
                (#[trigger] m.fields[x]).0,
                m.fields[x].1,
                inner,
            ),
    ensures
        clean(selected_tokens(d, m.fields, k, filter), sep),
    decreases m, 0int, k,
{
    if k > 0 {
        lemma_selected_clean(d, sep, m, k - 1, filter, inner);
        if keeps(d, filter, m.fields[k - 1].0) {
            lemma_field_clean(d, sep, m.fields[k - 1].0, m.fields[k - 1].1, inner);
            lemma_clean_concat(
                selected_tokens(d, m.fields, k - 1, filter),
                field_tokens(d, m.fields[k - 1].0, m.fields[k - 1].1),
                sep,
            );
        }
    }
}

/// Whether the field of `m` with the tag `layout[k]` is written for that
/// position of the layout.
pub open spec fn laid_out(m: MessageModel, layout: Seq<u32>, k: int) -> bool {
    0 <= k < layout.len() && !is_envelope_tag(layout[k]) && m.contains(layout[k])
}

/// The tokens that a layout writes for well-formed fields hold no separator
/// in their values.
pub proof fn lemma_layout_clean(
    d: DictionaryModel,
    sep: u8,
    m: MessageModel,
    layout: Seq<u32>,
    k: int,
    inner: Set<u32>,
)
    requires
        valid_separator(sep),
        0 <= k <= layout.len(),
        forall|x: int|
            0 <= x < m.fields.len() ==> value_wf(
                d,
                sep,
                (#[trigger] m.fields[x]).0,
                m.fields[x].1,
                inner,
            ),
    ensures
        clean(layout_tokens(d, m, layout, k), sep),
    decreases k,
{
    if k > 0 {
        lemma_layout_clean(d, sep, m, layout, k - 1, inner);
        if laid_out(m, layout, k - 1) {
            let tag = layout[k - 1];
            lemma_position(m, tag, 0);
            let p = m.position(tag);
            assert(value_wf(d, sep, m.fields[p].0, m.fields[p].1, inner));
            lemma_field_clean(d, sep, tag, m.get(tag).unwrap(), inner);
            lemma_clean_concat(
                layout_tokens(d, m, layout, k - 1),
                field_tokens(d, tag, m.get(tag).unwrap()),
                sep,
            );
        }
    }
}

/// The message `acc` after the fields of `m` whose tags stand in `layout`,
/// from position `k` on, have been set in it.
pub open spec fn advance_layout(acc: MessageModel, m: MessageModel, layout: Seq<u32>, k: int) -> MessageModel
    decreases layout.len() - k,
{
    if k < 0 || k >= layout.len() {
        acc
    } else if laid_out(m, layout, k) {
        advance_layout(acc.set(layout[k], m.get(layout[k]).unwrap()), m, layout, k + 1)
    } else {
        advance_layout(acc, m, layout, k + 1)
    }
}

/// What `advance_layout` leaves in the message: fields of `m` where it set
/// any, and what the message held elsewhere; and it sets every field of `m`
/// whose tag stands in the layout, but for the fields of the envelope.
pub proof fn lemma_advance_layout(acc: MessageModel, m: MessageModel, layout: Seq<u32>, k: int)
    requires
        acc.sorted(),
        0 <= k <= layout.len(),
    ensures
        advance_layout(acc, m, layout, k).sorted(),
        forall|tag: u32| #[trigger]
            advance_layout(acc, m, layout, k).get(tag) == m.get(tag) || advance_layout(
                acc,
                m,
                layout,
                k,
            ).get(tag) == acc.get(tag),
        forall|x: int|
            k <= x < layout.len() && laid_out(m, layout, x) ==> advance_layout(acc, m, layout, k).get(
                #[trigger] layout[x],
            ) == m.get(layout[x]),
    decreases layout.len() - k,
{
    if k < layout.len() {
        let tag = layout[k];
        if laid_out(m, layout, k) {
            let v = m.get(tag).unwrap();
            let next = acc.set(tag, v);
            lemma_set(acc, tag, v);
            lemma_advance_layout(next, m, layout, k + 1);
            let r = advance_layout(acc, m, layout, k);
            assert forall|t: u32| #[trigger] r.get(t) == m.get(t) || r.get(t) == acc.get(t) by {
                if t != tag {
                    assert(next.get(t) == acc.get(t));
                }
            }
            assert forall|x: int| k <= x < layout.len() && laid_out(m, layout, x) implies r.get(
                #[trigger] layout[x],
            ) == m.get(layout[x]) by {
                if x == k {
                    assert(r.get(tag) == m.get(tag) || r.get(tag) == next.get(tag));
                }
            }
        } else {
            lemma_advance_layout(acc, m, layout, k + 1);
        }
    }
}

/// The tokens of the first positions of a layout are a prefix of the tokens
/// of all.
pub proof fn lemma_layout_prefix(d: DictionaryModel, m: MessageModel, layout: Seq<u32>, k: int)
    requires
        0 <= k <= layout.len(),
    ensures
        layout_tokens(d, m, layout, k).len() <= layout_tokens(
            d,
            m,
            layout,
            layout.len() as int,
        ).len(),
        layout_tokens(d, m, layout, layout.len() as int).subrange(
            0,
            layout_tokens(d, m, layout, k).len() as int,
        ) == layout_tokens(d, m, layout, k),
    decreases layout.len() - k,
{
    let all = layout_tokens(d, m, layout, layout.len() as int);
    if k == layout.len() {
        assert(all.subrange(0, all.len() as int) =~= all);
    } else {
        lemma_layout_prefix(d, m, layout, k + 1);
        let next = layout_tokens(d, m, layout, k + 1);
        let now = layout_tokens(d, m, layout, k);
        assert(all.subrange(0, now.len() as int) =~= next.subrange(0, now.len() as int));
        assert(next.subrange(0, now.len() as int) =~= now);
    }
}

/// The tokens of a field that a layout writes stand where the tokens of
/// the positions before it end.
pub proof fn lemma_stands_layout(
    d: DictionaryModel,
    ts: Seq<Token>,
    base: int,
    m: MessageModel,
    layout: Seq<u32>,
    k: int,
)
    requires
        laid_out(m, layout, k),
        stands_at(ts, base, layout_tokens(d, m, layout, layout.len() as int)),
    ensures
        stands_at(
            ts,
            base + layout_tokens(d, m, layout, k).len(),
            field_tokens(d, layout[k], m.get(layout[k]).unwrap()),
        ),
        layout_tokens(d, m, layout, k + 1).len() == layout_tokens(d, m, layout, k).len()
            + field_tokens(d, layout[k], m.get(layout[k]).unwrap()).len(),
{
    let all = layout_tokens(d, m, layout, layout.len() as int);
    let now = layout_tokens(d, m, layout, k);
    let next = layout_tokens(d, m, layout, k + 1);
    let part = field_tokens(d, layout[k], m.get(layout[k]).unwrap());
    lemma_layout_prefix(d, m, layout, k + 1);
    assert(next == now + part);
    lemma_stands_prefix(ts, base, all, next.len() as int);
    lemma_stands_split(ts, base, now, part);
}

/// The token that follows the tokens of the first `j` positions of a layout
/// is the first token of a field of the message, or the token that follows
/// the layout.
pub proof fn lemma_followed_layout(
    d: DictionaryModel,
    ts: Seq<Token>,
    base: int,
    m: MessageModel,
    layout: Seq<u32>,
    j: int,
)
    requires
        0 <= j <= layout.len(),
        stands_at(ts, base, layout_tokens(d, m, layout, layout.len() as int)),
        followed_by(ts, base + layout_tokens(d, m, layout, layout.len() as int).len(), tags_of(m)),
    ensures
        followed_by(ts, base + layout_tokens(d, m, layout, j).len(), tags_of(m)),
    decreases layout.len() - j,
{
    if j < layout.len() {
        lemma_followed_layout(d, ts, base, m, layout, j + 1);
        if laid_out(m, layout, j) {
            lemma_stands_layout(d, ts, base, m, layout, j);
            let part = field_tokens(d, layout[j], m.get(layout[j]).unwrap());
            let at = base + layout_tokens(d, m, layout, j).len();
            assert(ts.subrange(at, at + part.len())[0] == ts[at]);
        }
    }
}

/// Reading the tokens that a layout wrote sets the fields of the layout,
/// from position `k` on, and goes on behind them.
pub proof fn lemma_parse_layout(
    d: DictionaryModel,
    sep: u8,
    ts: Seq<Token>,
    base: int,
    m: MessageModel,
    layout: Seq<u32>,
    k: int,
    acc: MessageModel,
)
    requires
        0 <= k <= layout.len(),
        stands_at(ts, base, layout_tokens(d, m, layout, layout.len() as int)),
        forall|x: int|
            0 <= x < m.fields.len() ==> value_wf(
                d,
                sep,
                (#[trigger] m.fields[x]).0,
                m.fields[x].1,
                tags_of(m),
            ),
        followed_by(ts, base + layout_tokens(d, m, layout, layout.len() as int).len(), tags_of(m)),
    ensures
        parse_fields(d, None, ts, base + layout_tokens(d, m, layout, k).len(), acc) == parse_fields(
            d,
            None,
            ts,
            base + layout_tokens(d, m, layout, layout.len() as int).len(),
            advance_layout(acc, m, layout, k),
        ),
    decreases layout.len() - k,
{
    if k < layout.len() {
        if laid_out(m, layout, k) {
            let tag = layout[k];
            lemma_position(m, tag, 0);
            let p = m.position(tag);
            let v = m.get(tag).unwrap();
            assert(value_wf(d, sep, m.fields[p].0, m.fields[p].1, tags_of(m)));
            let part = field_tokens(d, tag, v);
            let q = base + layout_tokens(d, m, layout, k).len();
            lemma_stands_layout(d, ts, base, m, layout, k);
            lemma_followed_layout(d, ts, base, m, layout, k + 1);
            lemma_field_tokens_head(d, tag, v);
            assert(ts.subrange(q, q + part.len())[0] == ts[q]);
            lemma_parse_value(d, sep, ts, q, tag, v, tags_of(m));
            lemma_parse_layout(d, sep, ts, base, m, layout, k + 1, acc.set(tag, v));
        } else {
            lemma_parse_layout(d, sep, ts, base, m, layout, k + 1, acc);
        }
    }
}

/// Whether `m` is a well-formed message of the dictionary: its tags ascend,
/// the tags 9 and 10, which the codec computes, are absent, and each value
/// is well-formed where any tag of the message may follow it.
pub open spec fn message_wf(d: DictionaryModel, sep: u8, m: MessageModel) -> bool {
    &&& m.sorted()
    &&& !m.contains(9)
    &&& !m.contains(10)
    &&& forall|k: int|
        0 <= k < m.fields.len() ==> value_wf(
            d,
            sep,
            (#[trigger] m.fields[k]).0,
            m.fields[k].1,
            tags_of(m),
        )
}

/// The tokens of a well-formed message build that message.
pub proof fn lemma_build_message(d: DictionaryModel, sep: u8, m: MessageModel)
    requires
        message_wf(d, sep, m),
        m.get(8) == Some(ValueModel::Atom(AtomModel::String(d.version.begin_string_text()))),
    ensures
        build(d, flatten(d, m)) == Ok::<_, DecodeError>(m),
{
    let header = d.layout(HEADER as int);
    let trailer = d.layout(TRAILER as int);
    let a = layout_tokens(d, m, header, header.len() as int);
    let b = selected_tokens(d, m.fields, m.fields.len() as int, Filter::Body);
    let c = layout_tokens(d, m, trailer, trailer.len() as int);
    let ts = flatten(d, m);
    let inner = tags_of(m);
    assert(ts == a + b + c);
    assert(ts.subrange(0, ts.len() as int) =~= ts);
    lemma_stands_split(ts, 0, a + b, c);
    lemma_stands_split(ts, 0, a, b);
    let first = ValueModel::Atom(AtomModel::String(d.version.begin_string_text()));
    let init = MessageModel::empty().set(8, first);
    lemma_set(MessageModel::empty(), 8, first);
    assert forall|x: int|
        0 <= x < m.fields.len() && keeps(d, Filter::Body, (#[trigger] m.fields[x]).0) implies value_wf(
        d,
        sep,
        m.fields[x].0,
        m.fields[x].1,
        inner,
    ) && !ends_entry(d, None, m.fields[x].0) && inner.contains(m.fields[x].0) by {
        lemma_position_of_entry(m, x);
    }
    // What follows each part is a token of the message, or nothing.
    lemma_followed_layout(d, ts, (a.len() + b.len()) as int, m, trailer, 0);
    assert(layout_tokens(d, m, trailer, 0) =~= Seq::<Token>::empty());
    lemma_followed_selected(d, ts, a.len() as int, m, Filter::Body, 0, inner);
    assert(selected_tokens(d, m.fields, 0, Filter::Body) =~= Seq::<Token>::empty());
    assert(layout_tokens(d, m, header, 0) =~= Seq::<Token>::empty());
    // The three parts are read one after the other.
    let acc1 = advance_layout(init, m, header, 0);
    let acc2 = advance(d, acc1, m.fields, 0, Filter::Body);
    let acc3 = advance_layout(acc2, m, trailer, 0);
    lemma_parse_layout(d, sep, ts, 0, m, header, 0, init);
    lemma_parse_selected(d, sep, None, ts, a.len() as int, m, Filter::Body, 0, acc1, inner);
    lemma_parse_layout(d, sep, ts, (a.len() + b.len()) as int, m, trailer, 0, acc2);
    assert(parse_fields(d, None, ts, 0, init) == parse_fields(d, None, ts, ts.len() as int, acc3));
    // What was set is the message.
    lemma_advance_layout(init, m, header, 0);
    lemma_advance(d, acc1, m, 0, Filter::Body);
    lemma_advance_layout(acc2, m, trailer, 0);
    assert forall|tag: u32| #[trigger] acc3.get(tag) == m.get(tag) by {
        lemma_position(m, tag, 0);
        lemma_position(MessageModel::empty(), tag, 0);
        if tag != 8 {
            assert(init.get(tag) == MessageModel::empty().get(tag));
        }
        assert(acc1.get(tag) == m.get(tag) || acc1.get(tag) == init.get(tag));
        assert(acc3.get(tag) == m.get(tag) || acc3.get(tag) == acc2.get(tag));
        if m.contains(tag) && !is_envelope_tag(tag) {
            if trailer.contains(tag) {
                let x = choose|x: int| 0 <= x < trailer.len() && trailer[x] == tag;
                assert(laid_out(m, trailer, x));
                assert(acc3.get(trailer[x]) == m.get(trailer[x]));
            } else if header.contains(tag) {
                let x = choose|x: int| 0 <= x < header.len() && header[x] == tag;
                assert(laid_out(m, header, x));
                assert(acc1.get(header[x]) == m.get(header[x]));
            } else {
                assert(is_body_tag(d, tag));
            }
        }
    }
    lemma_sorted_messages_equal(acc3, m);
}

/// Tag-value round trip: a well-formed message whose fields all belong to
/// the dictionary is read back from its bytes as it was.
pub proof fn law_round_trip(d: DictionaryModel, sep: u8, m: MessageModel)
    requires
        valid_separator(sep),
        message_wf(d, sep, m),
        encode_bytes(d, sep, m) is Ok,
        render(flatten(d, m), sep).len() <= u64::MAX,
    ensures
        decode_bytes(d, sep, encode_bytes(d, sep, m)->Ok_0) == Ok::<_, DecodeError>(m),
{
    let header = d.layout(HEADER as int);
    let trailer = d.layout(TRAILER as int);
    let inner = tags_of(m);
    lemma_layout_clean(d, sep, m, header, header.len() as int, inner);
    lemma_selected_clean(d, sep, m, m.fields.len() as int, Filter::Body, inner);
    lemma_layout_clean(d, sep, m, trailer, trailer.len() as int, inner);
    let a = layout_tokens(d, m, header, header.len() as int);
    let b = selected_tokens(d, m.fields, m.fields.len() as int, Filter::Body);
    let c = layout_tokens(d, m, trailer, trailer.len() as int);
    lemma_clean_concat(a, b, sep);
    lemma_clean_concat(a + b, c, sep);
    lemma_position(m, 8, 0);
    let p8 = m.position(8);
    assert(value_wf(d, sep, m.fields[p8].0, m.fields[p8].1, inner));
    lemma_envelope(d, sep, flatten(d, m));
    lemma_build_message(d, sep, m);
}


} // verus!
