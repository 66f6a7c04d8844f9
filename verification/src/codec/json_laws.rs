//! What holds of the JSON codec for every document: a document that is read
//! and written again is the same document, up to the order of its members.

use crate::codec::json::{
    decode_block, decode_entries, decode_field_tree, decode_members, decode_tree, document,
    encode_tree, find_dictionary, partition, section, string_member, translate_entries,
    translate_fields, translate_value, Sections,
};
use crate::dictionary::{
    lemma_index_of_tag, lemma_name_tag_round_trip, law_tag_name_round_trip, DictionaryModel,
};
use crate::json::{json_equiv, last_index_of, lemma_last_index_of, member, JsonTree};
use crate::message::{
    lemma_position, lemma_position_of_entry, lemma_set, AtomModel, MessageModel, ValueModel,
};
use vstd::assert_by_contradiction;
use vstd::prelude::*;

verus! {

/// The value that the first `k` of `members` give to the field called
/// `name`: that of the last member of that name.
pub open spec fn member_value(
    d: DictionaryModel,
    members: Seq<(Seq<char>, JsonTree)>,
    k: int,
    name: Seq<char>,
) -> Option<ValueModel> {
    match last_index_of(members, name, k) {
        Some(i) => match decode_field_tree(d, members[i].0, members[i].1) {
            Ok(field) => Some(field.1),
            Err(_) => None,
        },
        None => None,
    }
}

/// What a message holds after members have been set in it: for each field
/// of the dictionary the value of the last member of its name, or what the
/// message held before; and for every other tag what it held before.
pub open spec fn holds_members(
    d: DictionaryModel,
    members: Seq<(Seq<char>, JsonTree)>,
    k: int,
    init: MessageModel,
    r: MessageModel,
) -> bool {
    forall|tag: u32| #[trigger]
        r.get(tag) == match d.field_by_tag(tag) {
            Some(f) => if last_index_of(members, f.name, k) is Some {
                member_value(d, members, k, f.name)
            } else {
                init.get(tag)
            },
            None => init.get(tag),
        }
}

/// Setting members one after the other keeps the message sorted and leaves
/// each field with the value of the last member of its name.
pub proof fn lemma_decode_members(
    d: DictionaryModel,
    members: Seq<(Seq<char>, JsonTree)>,
    k: int,
    init: MessageModel,
)
    requires
        d.wf(),
        init.sorted(),
        0 <= k <= members.len(),
        decode_members(d, members, k, init) is Ok,
    ensures
        decode_members(d, members, k, init)->Ok_0.sorted(),
        forall|i: int|
            0 <= i < k ==> decode_field_tree(d, (#[trigger] members[i]).0, members[i].1) is Ok,
        holds_members(d, members, k, init, decode_members(d, members, k, init)->Ok_0),
    decreases k,
{
    let r = decode_members(d, members, k, init)->Ok_0;
    if k == 0 {
        assert(r == init);
    } else {
        lemma_decode_members(d, members, k - 1, init);
        let prior = decode_members(d, members, k - 1, init)->Ok_0;
        let key = members[k - 1].0;
        let field = decode_field_tree(d, key, members[k - 1].1)->Ok_0;
        let g = d.field_by_name(key)->Some_0;
        assert(field.0 == g.tag);
        lemma_set(prior, field.0, field.1);
        lemma_name_tag_round_trip(d, key);
        assert forall|tag: u32| #[trigger]
            r.get(tag) == match d.field_by_tag(tag) {
                Some(f) => if last_index_of(members, f.name, k) is Some {
                    member_value(d, members, k, f.name)
                } else {
                    init.get(tag)
                },
                None => init.get(tag),
            } by {
            if tag == g.tag {
                assert(d.field_by_tag(tag) == Some(g));
                assert(last_index_of(members, g.name, k) == Some(k - 1));
            } else {
                assert(r.get(tag) == prior.get(tag));
                match d.field_by_tag(tag) {
                    Some(f) => {
                        assert(f.name != key) by {
                            law_tag_name_round_trip(d, tag);
                        }
                        assert(last_index_of(members, f.name, k) == last_index_of(
                            members,
                            f.name,
                            k - 1,
                        ));
                    },
                    None => {},
                }
            }
        }
    }
}

/// The fields of a message translate one by one: each becomes a member
/// under the name of its tag.
pub proof fn lemma_translate_fields(d: DictionaryModel, fields: Seq<(u32, ValueModel)>, k: int)
    requires
        0 <= k <= fields.len(),
        forall|p: int|
            0 <= p < k ==> d.field_by_tag((#[trigger] fields[p]).0) is Some && translate_value(
                d,
                fields[p].1,
            ) is Ok,
    ensures
        translate_fields(d, fields, k) is Ok,
        translate_fields(d, fields, k)->Ok_0.len() == k,
        forall|p: int|
            0 <= p < k ==> (#[trigger] translate_fields(d, fields, k)->Ok_0[p]) == (
                d.field_by_tag(fields[p].0)->Some_0.name,
                translate_value(d, fields[p].1)->Ok_0,
            ),
    decreases k,
{
    if k > 0 {
        lemma_translate_fields(d, fields, k - 1);
        assert(d.field_by_tag(fields[k - 1].0) is Some);
        let prior = translate_fields(d, fields, k - 1)->Ok_0;
        let all = translate_fields(d, fields, k)->Ok_0;
        assert forall|p: int| 0 <= p < k implies (#[trigger] all[p]) == (
            d.field_by_tag(fields[p].0)->Some_0.name,
            translate_value(d, fields[p].1)->Ok_0,
        ) by {
            if p < k - 1 {
                assert(all[p] == prior[p]);
            }
        }
    }
}

/// A member that was read as a field is written back as a value equal to
/// its own, up to the order of members.
pub proof fn lemma_value_round_trip(d: DictionaryModel, key: Seq<char>, value: JsonTree)
    requires
        d.wf(),
        decode_field_tree(d, key, value) is Ok,
    ensures
        translate_value(d, decode_field_tree(d, key, value)->Ok_0.1) is Ok,
        json_equiv(translate_value(d, decode_field_tree(d, key, value)->Ok_0.1)->Ok_0, value),
    decreases value, 0int,
{
    match value {
        JsonTree::String(s) => {},
        JsonTree::Array(items) => {
            lemma_entries_round_trip(d, items, items.len() as int);
            let entries = decode_entries(d, items, items.len() as int)->Ok_0;
            assert(entries.len() == items.len());
        },
        _ => {},
    }
}

/// The entries of a group that were read from the items of an array are
/// written back as items equal to their own.
pub proof fn lemma_entries_round_trip(d: DictionaryModel, items: Seq<JsonTree>, k: int)
    requires
        d.wf(),
        0 <= k <= items.len(),
        decode_entries(d, items, k) is Ok,
    ensures
        decode_entries(d, items, k)->Ok_0.len() == k,
        translate_entries(d, decode_entries(d, items, k)->Ok_0, k) is Ok,
        translate_entries(d, decode_entries(d, items, k)->Ok_0, k)->Ok_0.len() == k,
        forall|i: int|
            0 <= i < k ==> json_equiv(
                #[trigger] translate_entries(d, decode_entries(d, items, k)->Ok_0, k)->Ok_0[i],
                items[i],
            ),
    decreases items, k,
{
    if k > 0 {
        lemma_entries_round_trip(d, items, k - 1);
        lemma_block_round_trip(d, items[k - 1]);
        let prior = decode_entries(d, items, k - 1)->Ok_0;
        let m = decode_block(d, items[k - 1])->Ok_0;
        let entries = decode_entries(d, items, k)->Ok_0;
        assert(entries == prior.push(m));
        lemma_translate_entries_prefix(d, entries, prior, k - 1);
        let before = translate_entries(d, prior, k - 1)->Ok_0;
        let object = JsonTree::Object(translate_fields(d, m.fields, m.fields.len() as int)->Ok_0);
        let all = translate_entries(d, entries, k)->Ok_0;
        assert(entries[k - 1] == m);
        assert(all == before.push(object));
        assert forall|i: int| 0 <= i < k implies json_equiv(#[trigger] all[i], items[i]) by {
            if i < k - 1 {
                assert(all[i] == before[i]);
            }
        }
    }
}

/// The translation of the first entries of a group looks at those entries
/// only.
pub proof fn lemma_translate_entries_prefix(
    d: DictionaryModel,
    entries: Seq<MessageModel>,
    prior: Seq<MessageModel>,
    k: int,
)
    requires
        0 <= k <= prior.len() <= entries.len(),
        forall|i: int| 0 <= i < k ==> #[trigger] entries[i] == prior[i],
    ensures
        translate_entries(d, entries, k) == translate_entries(d, prior, k),
    decreases k,
{
    if k > 0 {
        lemma_translate_entries_prefix(d, entries, prior, k - 1);
        assert(entries[k - 1] == prior[k - 1]);
    }
}

/// An object that was read as a message is written back as an object equal
/// to its own, up to the order of members.
pub proof fn lemma_block_round_trip(d: DictionaryModel, value: JsonTree)
    requires
        d.wf(),
        decode_block(d, value) is Ok,
    ensures
        decode_block(d, value)->Ok_0.sorted(),
        translate_fields(
            d,
            decode_block(d, value)->Ok_0.fields,
            decode_block(d, value)->Ok_0.fields.len() as int,
        ) is Ok,
        json_equiv(
            JsonTree::Object(
                translate_fields(
                    d,
                    decode_block(d, value)->Ok_0.fields,
                    decode_block(d, value)->Ok_0.fields.len() as int,
                )->Ok_0,
            ),
            value,
        ),
    decreases value, 1int,
{
    let members = value->Object_0;
    let n = members.len() as int;
    let m = decode_block(d, value)->Ok_0;
    lemma_decode_members(d, members, n, MessageModel::empty());
    assert forall|tag: u32| MessageModel::empty().get(tag) is None by {
        lemma_position(MessageModel::empty(), tag, 0);
    }
    // Every field of the message has a source among the members, and its
    // value is written back as the value of that member.
    assert forall|p: int| 0 <= p < m.fields.len() implies d.field_by_tag(
        (#[trigger] m.fields[p]).0,
    ) is Some && translate_value(d, m.fields[p].1) is Ok by {
        lemma_field_source(d, members, m, p);
        let f = d.field_by_tag(m.fields[p].0)->Some_0;
        let i = last_index_of(members, f.name, n)->Some_0;
        lemma_value_round_trip(d, members[i].0, members[i].1);
    }
    lemma_translate_fields(d, m.fields, m.fields.len() as int);
    let out = translate_fields(d, m.fields, m.fields.len() as int)->Ok_0;
    assert forall|key: Seq<char>|
        match (#[trigger] last_index_of(out, key, out.len() as int), last_index_of(members, key, n)) {
            (Some(i), Some(j)) => 0 <= i < out.len() && json_equiv(out[i].1, members[j].1),
            (None, None) => true,
            _ => false,
        } by {
        lemma_last_index_of(out, key, out.len() as int);
        lemma_last_index_of(members, key, n);
        match last_index_of(out, key, out.len() as int) {
            Some(p) => {
                assert(out[p] == (
                    d.field_by_tag(m.fields[p].0)->Some_0.name,
                    translate_value(d, m.fields[p].1)->Ok_0,
                ));
                lemma_field_source(d, members, m, p);
                let j = last_index_of(members, key, n)->Some_0;
                lemma_value_round_trip(d, members[j].0, members[j].1);
            },
            None => {
                assert_by_contradiction!(last_index_of(members, key, n) is None, {
                    let j = last_index_of(members, key, n)->Some_0;
                    assert(decode_field_tree(d, members[j].0, members[j].1) is Ok);
                    let g = d.field_by_name(key)->Some_0;
                    lemma_name_tag_round_trip(d, key);
                    assert(m.get(g.tag) == member_value(d, members, n, g.name));
                    lemma_position(m, g.tag, 0);
                    let p = m.position(g.tag);
                    assert(out[p] == (
                        d.field_by_tag(m.fields[p].0)->Some_0.name,
                        translate_value(d, m.fields[p].1)->Ok_0,
                    ));
                    assert(out[p].0 == key);
                });
            },
        }
    }
}

/// Each field of a message that was read from members has its source: the
/// last member of its name, whose value it holds.
pub proof fn lemma_field_source(
    d: DictionaryModel,
    members: Seq<(Seq<char>, JsonTree)>,
    m: MessageModel,
    p: int,
)
    requires
        d.wf(),
        m.sorted(),
        0 <= p < m.fields.len(),
        holds_members(d, members, members.len() as int, MessageModel::empty(), m),
        forall|i: int|
            0 <= i < members.len() ==> decode_field_tree(
                d,
                (#[trigger] members[i]).0,
                members[i].1,
            ) is Ok,
    ensures
        d.field_by_tag(m.fields[p].0) is Some,
        last_index_of(
            members,
            d.field_by_tag(m.fields[p].0)->Some_0.name,
            members.len() as int,
        ) is Some,
        ({
            let i = last_index_of(
                members,
                d.field_by_tag(m.fields[p].0)->Some_0.name,
                members.len() as int,
            )->Some_0;
            &&& 0 <= i < members.len()
            &&& members[i].0 == d.field_by_tag(m.fields[p].0)->Some_0.name
            &&& decode_field_tree(d, members[i].0, members[i].1) is Ok
            &&& m.fields[p].1 == decode_field_tree(d, members[i].0, members[i].1)->Ok_0.1
        }),
{
    let tag = m.fields[p].0;
    lemma_position_of_entry(m, p);
    lemma_position(MessageModel::empty(), tag, 0);
    assert(m.get(tag) == Some(m.fields[p].1));
    assert(MessageModel::empty().get(tag) is None);
    let f = d.field_by_tag(tag)->Some_0;
    lemma_last_index_of(members, f.name, members.len() as int);
}

/// Objects are equal up to the order of their members where they give
/// equal values to every key.
pub proof fn lemma_equiv_by_member(x: Seq<(Seq<char>, JsonTree)>, y: Seq<(Seq<char>, JsonTree)>)
    requires
        forall|key: Seq<char>|
            match (#[trigger] member(x, key), member(y, key)) {
                (Some(a), Some(b)) => json_equiv(a, b),
                (None, None) => true,
                _ => false,
            },
    ensures
        json_equiv(JsonTree::Object(x), JsonTree::Object(y)),
{
    assert forall|key: Seq<char>|
        match (#[trigger] last_index_of(x, key, x.len() as int), last_index_of(y, key, y.len() as int)) {
            (Some(i), Some(j)) => 0 <= i < x.len() && json_equiv(x[i].1, y[j].1),
            (None, None) => true,
            _ => false,
        } by {
        lemma_last_index_of(x, key, x.len() as int);
        lemma_last_index_of(y, key, y.len() as int);
        let a = member(x, key);
        let b = member(y, key);
        assert(match (a, b) {
            (Some(a), Some(b)) => json_equiv(a, b),
            (None, None) => true,
            _ => false,
        });
    }
}

/// The section that a field belongs to: 0 for the header, 2 for the
/// trailer, 1 for the body.
pub open spec fn section_of(d: DictionaryModel, tag: u32) -> int {
    if d.in_header(tag) {
        0
    } else if d.in_trailer(tag) {
        2
    } else {
        1
    }
}

/// Whether each of `members` that names a field of the dictionary names a
/// field of the section `which`.
pub open spec fn placed(d: DictionaryModel, members: Seq<(Seq<char>, JsonTree)>, which: int) -> bool {
    forall|i: int|
        0 <= i < members.len() ==> match d.field_by_name((#[trigger] members[i]).0) {
            Some(f) => section_of(d, f.tag) == which,
            None => true,
        }
}

/// Whether the dictionary gives `BeginString` the tag 8 and `MsgType` the
/// tag 35, as every dictionary of the standard does.
pub open spec fn conventional(d: DictionaryModel) -> bool {
    &&& d.wf()
    &&& d.field_by_name("BeginString"@) matches Some(f) && f.tag == 8
    &&& d.field_by_name("MsgType"@) matches Some(g) && g.tag == 35
}

/// The section of a list of sections.
pub open spec fn pick(s: Sections, which: int) -> Seq<(Seq<char>, JsonTree)> {
    if which == 0 {
        s.header
    } else if which == 2 {
        s.trailer
    } else {
        s.body
    }
}

/// The value that the section `which` gives to `key` after the first `k`
/// of `fields` have been added to the sections `init`.
pub open spec fn section_lookup(
    d: DictionaryModel,
    fields: Seq<(u32, ValueModel)>,
    k: int,
    which: int,
    init: Sections,
    key: Seq<char>,
) -> Option<JsonTree>
    decreases k,
{
    if k <= 0 || k > fields.len() {
        member(pick(init, which), key)
    } else {
        match d.field_by_tag(fields[k - 1].0) {
            Some(f) => if section_of(d, f.tag) == which && f.name == key {
                match translate_value(d, fields[k - 1].1) {
                    Ok(j) => Some(j),
                    Err(_) => None,
                }
            } else {
                section_lookup(d, fields, k - 1, which, init, key)
            },
            None => section_lookup(d, fields, k - 1, which, init, key),
        }
    }
}

/// Adding a member to a list changes what the list gives to the key of the
/// member, and nothing else.
pub proof fn lemma_member_push(
    members: Seq<(Seq<char>, JsonTree)>,
    entry: (Seq<char>, JsonTree),
    key: Seq<char>,
)
    ensures
        member(members.push(entry), key) == if entry.0 == key {
            Some(entry.1)
        } else {
            member(members, key)
        },
{
    let all = members.push(entry);
    let n = members.len() as int;
    assert(all[n] == entry);
    if entry.0 != key {
        lemma_last_index_prefix(all, members, key, n);
        match last_index_of(members, key, n) {
            Some(i) => {
                lemma_last_index_of(members, key, n);
                assert(all[i] == members[i]);
            },
            None => {},
        }
    }
}

/// The last position of a key among the first members of a list depends on
/// those members only.
pub proof fn lemma_last_index_prefix(
    all: Seq<(Seq<char>, JsonTree)>,
    short: Seq<(Seq<char>, JsonTree)>,
    key: Seq<char>,
    k: int,
)
    requires
        0 <= k <= short.len() <= all.len(),
        forall|i: int| 0 <= i < k ==> #[trigger] all[i] == short[i],
    ensures
        last_index_of(all, key, k) == last_index_of(short, key, k),
    decreases k,
{
    if k > 0 {
        assert(all[k - 1] == short[k - 1]);
        lemma_last_index_prefix(all, short, key, k - 1);
    }
}

/// The sections that the fields of a message are sorted into give to every
/// key what `section_lookup` says.
pub proof fn lemma_partition(
    d: DictionaryModel,
    fields: Seq<(u32, ValueModel)>,
    k: int,
    init: Sections,
)
    requires
        0 <= k <= fields.len(),
        forall|p: int|
            0 <= p < k ==> d.field_by_tag((#[trigger] fields[p]).0) is Some && translate_value(
                d,
                fields[p].1,
            ) is Ok,
    ensures
        partition(d, fields, k, init) is Ok,
        forall|which: int, key: Seq<char>|
            0 <= which <= 2 ==> member(pick(partition(d, fields, k, init)->Ok_0, which), key)
                == #[trigger] section_lookup(d, fields, k, which, init, key),
    decreases k,
{
    if k > 0 {
        lemma_partition(d, fields, k - 1, init);
        let prior = partition(d, fields, k - 1, init)->Ok_0;
        let now = partition(d, fields, k, init)->Ok_0;
        assert(d.field_by_tag(fields[k - 1].0) is Some);
        let f = d.field_by_tag(fields[k - 1].0)->Some_0;
        lemma_index_of_tag(d, fields[k - 1].0, d.fields.len() as int);
        assert(f.tag == fields[k - 1].0);
        let j = translate_value(d, fields[k - 1].1)->Ok_0;
        let entry = (f.name, j);
        assert forall|which: int, key: Seq<char>| 0 <= which <= 2 implies member(
            pick(now, which),
            key,
        ) == #[trigger] section_lookup(d, fields, k, which, init, key) by {
            assert(member(pick(prior, which), key) == section_lookup(
                d,
                fields,
                k - 1,
                which,
                init,
                key,
            ));
            if section_of(d, f.tag) == which {
                assert(pick(now, which) == pick(prior, which).push(entry));
                lemma_member_push(pick(prior, which), entry, key);
            } else {
                assert(pick(now, which) == pick(prior, which));
            }
        }
    }
}

/// Where no field of the section carries the name `key`, the section gives
/// to `key` what it gave at the start.
pub proof fn lemma_section_lookup_absent(
    d: DictionaryModel,
    fields: Seq<(u32, ValueModel)>,
    k: int,
    which: int,
    init: Sections,
    key: Seq<char>,
)
    requires
        0 <= k <= fields.len(),
        forall|p: int|
            0 <= p < k ==> match d.field_by_tag((#[trigger] fields[p]).0) {
                Some(f) => !(section_of(d, f.tag) == which && f.name == key),
                None => true,
            },
    ensures
        section_lookup(d, fields, k, which, init, key) == member(pick(init, which), key),
    decreases k,
{
    if k > 0 {
        lemma_section_lookup_absent(d, fields, k - 1, which, init, key);
        assert(match d.field_by_tag(fields[k - 1].0) {
            Some(f) => !(section_of(d, f.tag) == which && f.name == key),
            None => true,
        });
    }
}

/// Where the field at `p` is the only field that carries the name `key`,
/// and belongs to the section, the section gives to `key` the value of that
/// field.
pub proof fn lemma_section_lookup_present(
    d: DictionaryModel,
    fields: Seq<(u32, ValueModel)>,
    k: int,
    which: int,
    init: Sections,
    key: Seq<char>,
    p: int,
)
    requires
        0 <= p < k <= fields.len(),
        d.field_by_tag(fields[p].0) matches Some(f) && section_of(d, f.tag) == which && f.name
            == key,
        translate_value(d, fields[p].1) is Ok,
        forall|q: int|
            p < q < k ==> match d.field_by_tag((#[trigger] fields[q]).0) {
                Some(f) => f.name != key,
                None => true,
            },
    ensures
        section_lookup(d, fields, k, which, init, key) == Some(
            translate_value(d, fields[p].1)->Ok_0,
        ),
    decreases k,
{
    if k - 1 > p {
        lemma_section_lookup_present(d, fields, k - 1, which, init, key, p);
        assert(match d.field_by_tag(fields[k - 1].0) {
            Some(f) => f.name != key,
            None => true,
        });
    }
}


/// The members that the fields of the section of `tag` come from.
pub open spec fn source_members(
    d: DictionaryModel,
    header: Seq<(Seq<char>, JsonTree)>,
    body: Seq<(Seq<char>, JsonTree)>,
    trailer: Seq<(Seq<char>, JsonTree)>,
    tag: u32,
) -> Seq<(Seq<char>, JsonTree)> {
    if section_of(d, tag) == 0 {
        header
    } else if section_of(d, tag) == 2 {
        trailer
    } else {
        body
    }
}

/// What the message holds that was read from the three sections of a
/// document: for each field of the dictionary the value of the last member
/// of its name in the section of the field.
pub open spec fn holds_sections(
    d: DictionaryModel,
    header: Seq<(Seq<char>, JsonTree)>,
    body: Seq<(Seq<char>, JsonTree)>,
    trailer: Seq<(Seq<char>, JsonTree)>,
    m: MessageModel,
) -> bool {
    forall|tag: u32| #[trigger]
        m.get(tag) == match d.field_by_tag(tag) {
            Some(f) => member_value(
                d,
                source_members(d, header, body, trailer, tag),
                source_members(d, header, body, trailer, tag).len() as int,
                f.name,
            ),
            None => None,
        }
}

/// Whether every member of the list is read as a field.
pub open spec fn all_decode(d: DictionaryModel, members: Seq<(Seq<char>, JsonTree)>) -> bool {
    forall|i: int|
        0 <= i < members.len() ==> decode_field_tree(
            d,
            (#[trigger] members[i]).0,
            members[i].1,
        ) is Ok
}

/// A member of a section that is well placed is no member of another
/// section.
pub proof fn lemma_placed_elsewhere(
    d: DictionaryModel,
    members: Seq<(Seq<char>, JsonTree)>,
    which: int,
    tag: u32,
)
    requires
        d.wf(),
        placed(d, members, which),
        d.field_by_tag(tag) is Some,
        section_of(d, tag) != which,
    ensures
        last_index_of(members, d.field_by_tag(tag)->Some_0.name, members.len() as int) is None,
{
    let f = d.field_by_tag(tag)->Some_0;
    lemma_last_index_of(members, f.name, members.len() as int);
    law_tag_name_round_trip(d, tag);
    lemma_index_of_tag(d, tag, d.fields.len() as int);
    match last_index_of(members, f.name, members.len() as int) {
        Some(i) => {
            assert(d.field_by_name(members[i].0) == Some(f));
            assert(f.tag == tag);
        },
        None => {},
    }
}

/// The message that is read from the three sections of a well-placed
/// document holds, for each field, the value of the last member of its name
/// in its section.
pub proof fn lemma_three_sections(
    d: DictionaryModel,
    header: Seq<(Seq<char>, JsonTree)>,
    body: Seq<(Seq<char>, JsonTree)>,
    trailer: Seq<(Seq<char>, JsonTree)>,
)
    requires
        d.wf(),
        placed(d, header, 0),
        placed(d, body, 1),
        placed(d, trailer, 2),
        decode_members(d, header, header.len() as int, MessageModel::empty()) is Ok,
        decode_members(
            d,
            body,
            body.len() as int,
            decode_members(d, header, header.len() as int, MessageModel::empty())->Ok_0,
        ) is Ok,
        decode_members(
            d,
            trailer,
            trailer.len() as int,
            decode_members(
                d,
                body,
                body.len() as int,
                decode_members(d, header, header.len() as int, MessageModel::empty())->Ok_0,
            )->Ok_0,
        ) is Ok,
    ensures
        ({
            let m1 = decode_members(d, header, header.len() as int, MessageModel::empty())->Ok_0;
            let m2 = decode_members(d, body, body.len() as int, m1)->Ok_0;
            let m3 = decode_members(d, trailer, trailer.len() as int, m2)->Ok_0;
            &&& m3.sorted()
            &&& holds_sections(d, header, body, trailer, m3)
            &&& all_decode(d, header)
            &&& all_decode(d, body)
            &&& all_decode(d, trailer)
        }),
{
    let empty = MessageModel::empty();
    let m1 = decode_members(d, header, header.len() as int, empty)->Ok_0;
    let m2 = decode_members(d, body, body.len() as int, m1)->Ok_0;
    let m3 = decode_members(d, trailer, trailer.len() as int, m2)->Ok_0;
    lemma_decode_members(d, header, header.len() as int, empty);
    lemma_decode_members(d, body, body.len() as int, m1);
    lemma_decode_members(d, trailer, trailer.len() as int, m2);
    assert forall|tag: u32| #[trigger]
        m3.get(tag) == match d.field_by_tag(tag) {
            Some(f) => member_value(
                d,
                source_members(d, header, body, trailer, tag),
                source_members(d, header, body, trailer, tag).len() as int,
                f.name,
            ),
            None => None,
        } by {
        lemma_position(empty, tag, 0);
        assert(empty.get(tag) is None);
        let a = m1.get(tag);
        let b = m2.get(tag);
        let c = m3.get(tag);
        match d.field_by_tag(tag) {
            Some(f) => {
                if section_of(d, tag) != 0 {
                    lemma_placed_elsewhere(d, header, 0, tag);
                }
                if section_of(d, tag) != 1 {
                    lemma_placed_elsewhere(d, body, 1, tag);
                }
                if section_of(d, tag) != 2 {
                    lemma_placed_elsewhere(d, trailer, 2, tag);
                }
            },
            None => {},
        }
    }
}

/// The section `which` of the document that is written for a message is
/// equal, up to the order of members, to the section that the message was
/// read from.
pub proof fn lemma_section_round_trip(
    d: DictionaryModel,
    header: Seq<(Seq<char>, JsonTree)>,
    body: Seq<(Seq<char>, JsonTree)>,
    trailer: Seq<(Seq<char>, JsonTree)>,
    m: MessageModel,
    init: Sections,
    which: int,
)
    requires
        d.wf(),
        0 <= which <= 2,
        placed(d, header, 0),
        placed(d, body, 1),
        placed(d, trailer, 2),
        all_decode(d, header),
        all_decode(d, body),
        all_decode(d, trailer),
        m.sorted(),
        holds_sections(d, header, body, trailer, m),
        forall|key: Seq<char>|
            member(pick(init, which), key) is Some ==> #[trigger] last_index_of(
                pick(Sections { header, body, trailer }, which),
                key,
                pick(Sections { header, body, trailer }, which).len() as int,
            ) is Some,
    ensures
        partition(d, m.fields, m.fields.len() as int, init) is Ok,
        json_equiv(
            JsonTree::Object(pick(partition(d, m.fields, m.fields.len() as int, init)->Ok_0, which)),
            JsonTree::Object(pick(Sections { header, body, trailer }, which)),
        ),
{
    let n = m.fields.len() as int;
    let from = pick(Sections { header, body, trailer }, which);
    lemma_fields_translate(d, header, body, trailer, m);
    lemma_partition(d, m.fields, n, init);
    let out = pick(partition(d, m.fields, n, init)->Ok_0, which);
    assert forall|key: Seq<char>|
        match (#[trigger] member(out, key), member(from, key)) {
            (Some(a), Some(b)) => json_equiv(a, b),
            (None, None) => true,
            _ => false,
        } by {
        assert(member(out, key) == section_lookup(d, m.fields, n, which, init, key));
        lemma_last_index_of(from, key, from.len() as int);
        match last_index_of(from, key, from.len() as int) {
            Some(j) => {
                assert(decode_field_tree(d, from[j].0, from[j].1) is Ok);
                let g = d.field_by_name(key)->Some_0;
                lemma_name_tag_round_trip(d, key);
                assert(section_of(d, g.tag) == which);
                assert(source_members(d, header, body, trailer, g.tag) == from);
                assert(m.get(g.tag) == member_value(d, from, from.len() as int, g.name));
                lemma_position(m, g.tag, 0);
                let p = m.position(g.tag);
                assert(m.fields[p].0 == g.tag);
                assert forall|q: int| p < q < n implies match d.field_by_tag(
                    (#[trigger] m.fields[q]).0,
                ) {
                    Some(f) => f.name != key,
                    None => true,
                } by {
                    assert(m.fields[p].0 < m.fields[q].0);
                    match d.field_by_tag(m.fields[q].0) {
                        Some(f) => {
                            law_tag_name_round_trip(d, m.fields[q].0);
                            lemma_index_of_tag(d, m.fields[q].0, d.fields.len() as int);
                        },
                        None => {},
                    }
                }
                lemma_section_lookup_present(d, m.fields, n, which, init, key, p);
                lemma_value_round_trip(d, from[j].0, from[j].1);
            },
            None => {
                assert forall|p: int| 0 <= p < n implies match d.field_by_tag(
                    (#[trigger] m.fields[p]).0,
                ) {
                    Some(f) => !(section_of(d, f.tag) == which && f.name == key),
                    None => true,
                } by {
                    let tag = m.fields[p].0;
                    lemma_position_of_entry(m, p);
                    assert(m.get(tag) == Some(m.fields[p].1));
                    match d.field_by_tag(tag) {
                        Some(f) => {
                            lemma_index_of_tag(d, tag, d.fields.len() as int);
                            assert(f.tag == tag);
                        },
                        None => {},
                    }
                }
                lemma_section_lookup_absent(d, m.fields, n, which, init, key);
            },
        }
    }
    lemma_equiv_by_member(out, from);
}

/// Every field of a message that was read from a document is a field of the
/// dictionary, and its value can be written.
pub proof fn lemma_fields_translate(
    d: DictionaryModel,
    header: Seq<(Seq<char>, JsonTree)>,
    body: Seq<(Seq<char>, JsonTree)>,
    trailer: Seq<(Seq<char>, JsonTree)>,
    m: MessageModel,
)
    requires
        d.wf(),
        all_decode(d, header),
        all_decode(d, body),
        all_decode(d, trailer),
        m.sorted(),
        holds_sections(d, header, body, trailer, m),
    ensures
        forall|p: int|
            0 <= p < m.fields.len() ==> d.field_by_tag((#[trigger] m.fields[p]).0) is Some
                && translate_value(d, m.fields[p].1) is Ok,
{
    assert forall|p: int| 0 <= p < m.fields.len() implies d.field_by_tag(
        (#[trigger] m.fields[p]).0,
    ) is Some && translate_value(d, m.fields[p].1) is Ok by {
        let tag = m.fields[p].0;
        lemma_position_of_entry(m, p);
        assert(m.get(tag) == Some(m.fields[p].1));
        let f = d.field_by_tag(tag)->Some_0;
        let from = source_members(d, header, body, trailer, tag);
        lemma_last_index_of(from, f.name, from.len() as int);
        let i = last_index_of(from, f.name, from.len() as int)->Some_0;
        assert(decode_field_tree(d, from[i].0, from[i].1) is Ok);
        lemma_value_round_trip(d, from[i].0, from[i].1);
    }
}

/// Whether the members of a document are sections and nothing else.
pub open spec fn only_sections(top: Seq<(Seq<char>, JsonTree)>) -> bool {
    forall|i: int|
        0 <= i < top.len() ==> (#[trigger] top[i]).0 == "Header"@ || top[i].0 == "Body"@ || top[i].0
            == "Trailer"@
}

/// Whether `j` is a well-formed message for a codec that knows `dicts`: it
/// has the three sections and nothing else, its dictionary gives
/// `BeginString` and `MsgType` their tags, and every member stands in the
/// section of its field.
pub open spec fn well_formed_document(dicts: Seq<DictionaryModel>, j: JsonTree) -> bool {
    match (j, section(j, "Header"@), section(j, "Body"@), section(j, "Trailer"@)) {
        (JsonTree::Object(top), Some(header), Some(body), Some(trailer)) => {
            &&& only_sections(top)
            &&& match string_member(header, "BeginString"@) {
                Some(begin) => match find_dictionary(dicts, begin) {
                    Some(d) => conventional(d) && placed(d, header, 0) && placed(d, body, 1)
                        && placed(d, trailer, 2),
                    None => false,
                },
                None => false,
            }
        },
        _ => false,
    }
}

/// The document that holds three sections is equal to a document of the
/// standard form whose sections are equal to them.
pub proof fn lemma_document_equiv(
    s: Sections,
    top: Seq<(Seq<char>, JsonTree)>,
    header: Seq<(Seq<char>, JsonTree)>,
    body: Seq<(Seq<char>, JsonTree)>,
    trailer: Seq<(Seq<char>, JsonTree)>,
)
    requires
        only_sections(top),
        section(JsonTree::Object(top), "Header"@) == Some(header),
        section(JsonTree::Object(top), "Body"@) == Some(body),
        section(JsonTree::Object(top), "Trailer"@) == Some(trailer),
        json_equiv(JsonTree::Object(s.header), JsonTree::Object(header)),
        json_equiv(JsonTree::Object(s.body), JsonTree::Object(body)),
        json_equiv(JsonTree::Object(s.trailer), JsonTree::Object(trailer)),
    ensures
        json_equiv(document(s), JsonTree::Object(top)),
{
    reveal_strlit("Header");
    reveal_strlit("Body");
    reveal_strlit("Trailer");
    let h = "Header"@;
    let b = "Body"@;
    let t = "Trailer"@;
    assert(h.len() == 6 && b.len() == 4 && t.len() == 7);
    let ours = document(s)->Object_0;
    assert(ours.len() == 3);
    assert(ours[0].0 == h && ours[1].0 == b && ours[2].0 == t);
    assert forall|key: Seq<char>|
        match (#[trigger] member(ours, key), member(top, key)) {
            (Some(x), Some(y)) => json_equiv(x, y),
            (None, None) => true,
            _ => false,
        } by {
        lemma_last_index_of(ours, key, 3);
        lemma_last_index_of(top, key, top.len() as int);
        if key == h {
            assert(last_index_of(ours, key, 3) == Some(0int));
        } else if key == b {
            assert(last_index_of(ours, key, 3) == Some(1int));
        } else if key == t {
            assert(last_index_of(ours, key, 3) == Some(2int));
        } else {
            assert(last_index_of(ours, key, 3) is None);
            assert(last_index_of(top, key, top.len() as int) is None);
        }
    }
    lemma_equiv_by_member(ours, top);
}

/// JSON round trip: a well-formed message that is read and written again is
/// a document equal to the one that was read, up to the order of members.
pub proof fn law_json_round_trip(dicts: Seq<DictionaryModel>, j: JsonTree)
    requires
        well_formed_document(dicts, j),
        decode_tree(dicts, j) is Ok,
    ensures
        encode_tree(dicts, decode_tree(dicts, j)->Ok_0) is Ok,
        json_equiv(encode_tree(dicts, decode_tree(dicts, j)->Ok_0)->Ok_0, j),
{
    let top = j->Object_0;
    let header = section(j, "Header"@)->Some_0;
    let body = section(j, "Body"@)->Some_0;
    let trailer = section(j, "Trailer"@)->Some_0;
    let begin = string_member(header, "BeginString"@)->Some_0;
    let msg_type = string_member(header, "MsgType"@)->Some_0;
    let d = find_dictionary(dicts, begin)->Some_0;
    let m = decode_tree(dicts, j)->Ok_0;
    lemma_three_sections(d, header, body, trailer);
    // The two fields of the envelope are where the encoder looks for them.
    lemma_envelope_field(d, header, body, trailer, m, "BeginString"@, 8, begin);
    lemma_envelope_field(d, header, body, trailer, m, "MsgType"@, 35, msg_type);
    let init = Sections {
        header: seq![("MsgType"@, JsonTree::String(msg_type))],
        body: Seq::empty(),
        trailer: Seq::empty(),
    };
    assert forall|key: Seq<char>| member(pick(init, 0), key) is Some implies #[trigger] last_index_of(
        pick(Sections { header, body, trailer }, 0),
        key,
        pick(Sections { header, body, trailer }, 0).len() as int,
    ) is Some by {
        lemma_last_index_of(init.header, key, 1);
        assert(key == "MsgType"@);
    }
    assert forall|key: Seq<char>| member(pick(init, 1), key) is Some implies #[trigger] last_index_of(
        pick(Sections { header, body, trailer }, 1),
        key,
        pick(Sections { header, body, trailer }, 1).len() as int,
    ) is Some by {
        lemma_last_index_of(init.body, key, 0);
    }
    assert forall|key: Seq<char>| member(pick(init, 2), key) is Some implies #[trigger] last_index_of(
        pick(Sections { header, body, trailer }, 2),
        key,
        pick(Sections { header, body, trailer }, 2).len() as int,
    ) is Some by {
        lemma_last_index_of(init.trailer, key, 0);
    }
    lemma_section_round_trip(d, header, body, trailer, m, init, 0);
    lemma_section_round_trip(d, header, body, trailer, m, init, 1);
    lemma_section_round_trip(d, header, body, trailer, m, init, 2);
    let s = partition(d, m.fields, m.fields.len() as int, init)->Ok_0;
    lemma_document_equiv(s, top, header, body, trailer);
}

/// A string member of the header that names a field of the envelope is read
/// as a text field with the tag of the envelope.
pub proof fn lemma_envelope_field(
    d: DictionaryModel,
    header: Seq<(Seq<char>, JsonTree)>,
    body: Seq<(Seq<char>, JsonTree)>,
    trailer: Seq<(Seq<char>, JsonTree)>,
    m: MessageModel,
    name: Seq<char>,
    tag: u32,
    text: Seq<char>,
)
    requires
        d.wf(),
        d.field_by_name(name) matches Some(f) && f.tag == tag,
        placed(d, header, 0),
        holds_sections(d, header, body, trailer, m),
        string_member(header, name) == Some(text),
    ensures
        m.get(tag) == Some(ValueModel::Atom(AtomModel::String(text))),
{
    lemma_name_tag_round_trip(d, name);
    lemma_last_index_of(header, name, header.len() as int);
    let i = last_index_of(header, name, header.len() as int)->Some_0;
    assert(header[i].1 == JsonTree::String(text));
    assert(section_of(d, tag) == 0);
    assert(source_members(d, header, body, trailer, tag) == header);
    assert(m.get(tag) == member_value(d, header, header.len() as int, name));
}


} // verus!
