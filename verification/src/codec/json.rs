//! JSON encoding for FIX support.

use crate::codec::{Buffer, Decoder, Encoder};
use crate::dictionary::{Dictionary, DictionaryModel};
use crate::json::{
    json_equiv, member, parse, parsed_json, serialize, written_text, JsonTree,
    JsonValue,
};
use crate::message::{
    AtomModel, AtomicValue, FieldValue, Message, MessageModel, TsrMessageRef, ValueModel,
};
use crate::text::{int_bytes, lemma_int_bytes_utf8, push_int, string_from_utf8};
use vstd::prelude::*;
use vstd::utf8::{decode_utf8, encode_utf8_decode_utf8};

verus! {

/// Configuration interface for [`json::Codec`](Codec).
pub trait Config: Clone {
    /// Whether encoded messages are "prettified".
    spec fn pretty(&self) -> bool;

    /// This setting indicates that all encoded messages should be "prettified",
    /// i.e. the JSON code will not be compressed and instead it will have
    /// indentation and other whitespace that favors human readability. Some
    /// performance loss and increased payload size is expected. An
    /// implementor states its setting in [`pretty`](Config::pretty), and this
    /// method returns it.
    fn pretty_print(&self) -> (r: bool)
        ensures
            r == self.pretty(),
    ;
}

/// A [`Config`](Config) that "pretty-prints", i.e. always returns `true` from
/// [`Config::pretty_print`](Config::pretty_print).
#[derive(Debug, Clone, Copy)]
pub struct ConfigPrettyPrint;

impl Config for ConfigPrettyPrint {
    open spec fn pretty(&self) -> bool {
        true
    }

    fn pretty_print(&self) -> (r: bool) {
        true
    }
}

/// A [`Config`](Config) that can be read from a file and modified at runtime.
#[derive(Debug, Clone, Copy)]
pub struct ConfigSettable {
    pretty_print: bool,
}

impl ConfigSettable {
    /// Creates a [`ConfigSettable`](ConfigSettable) with default settings:
    /// no pretty-printing.
    pub fn new() -> (r: Self)
        ensures
            !r.pretty(),
    {
        Self { pretty_print: false }
    }

    /// Enables [`Config::pretty_print`](Config::pretty_print) if and only if
    /// `pretty_print` is true; otherwise it disables pretty-printing.
    pub fn set_pretty_print(&mut self, pretty_print: bool)
        ensures
            final(self).pretty() == pretty_print,
    {
        self.pretty_print = pretty_print;
    }
}

impl Default for ConfigSettable {
    fn default() -> (r: Self)
        ensures
            !r.pretty(),
    {
        Self { pretty_print: false }
    }
}

impl Config for ConfigSettable {
    closed spec fn pretty(&self) -> bool {
        self.pretty_print
    }

    fn pretty_print(&self) -> (r: bool) {
        self.pretty_print
    }
}

/// The error type that can be returned if some error occurs when encoding JSON
/// messages.
#[derive(Copy, Clone, Debug, PartialEq, Eq, Structural)]
pub enum EncoderError {
    /// The message lacks what it takes to find its dictionary and its field
    /// names: `BeginString` or `MsgType` is missing, the version is unknown,
    /// or a tag is not in the dictionary.
    Dictionary,
    /// The sink did not take the bytes.
    BufferFull,
}

/// The error type that can be returned if some error is detected when decoding
/// JSON messages.
#[derive(Copy, Clone, Debug, PartialEq, Eq, Structural)]
pub enum DecodeError {
    /// Bad JSON syntax.
    Syntax,
    /// The message is valid JSON, but not a valid FIX message.
    Schema,
    /// Unrecognized message type.
    InvalidMsgType,
    /// The data does not conform to the specified message type.
    InvalidData,
}

impl DecodeError {
    /// A description of the error.
    pub fn to_string(&self) -> (r: String)
        ensures
            r@ == "FIX JSON decoding error."@,
    {
        "FIX JSON decoding error.".to_owned()
    }
}

/// The first of the first `k` dictionaries whose version goes by the
/// `BeginString` value `begin`.
pub open spec fn find_dictionary_upto(dicts: Seq<DictionaryModel>, begin: Seq<char>, k: int) -> Option<
    int,
>
    decreases k,
{
    if k <= 0 || k > dicts.len() {
        None
    } else if find_dictionary_upto(dicts, begin, k - 1) is Some {
        find_dictionary_upto(dicts, begin, k - 1)
    } else if dicts[k - 1].version.begin_string_text() == begin {
        Some(k - 1)
    } else {
        None
    }
}

/// The dictionary that the `BeginString` value `begin` selects.
pub open spec fn find_dictionary(dicts: Seq<DictionaryModel>, begin: Seq<char>) -> Option<
    DictionaryModel,
> {
    match find_dictionary_upto(dicts, begin, dicts.len() as int) {
        Some(i) => Some(dicts[i]),
        None => None,
    }
}

/// The members of the object that `value` holds under `key`.
pub open spec fn section(value: JsonTree, key: Seq<char>) -> Option<Seq<(Seq<char>, JsonTree)>> {
    match value {
        JsonTree::Object(members) => match member(members, key) {
            Some(JsonTree::Object(inner)) => Some(inner),
            _ => None,
        },
        _ => None,
    }
}

/// The string that `members` hold under `key`.
pub open spec fn string_member(members: Seq<(Seq<char>, JsonTree)>, key: Seq<char>) -> Option<
    Seq<char>,
> {
    match member(members, key) {
        Some(JsonTree::String(s)) => Some(s),
        _ => None,
    }
}

/// The field that the member `key: value` stands for: the name is resolved
/// in the dictionary, a string becomes an atom, an array of objects a group.
pub open spec fn decode_field_tree(d: DictionaryModel, key: Seq<char>, value: JsonTree) -> Result<
    (u32, ValueModel),
    DecodeError,
>
    decreases value, 0int,
{
    match d.field_by_name(key) {
        None => Err(DecodeError::InvalidData),
        Some(f) => match value {
            JsonTree::String(s) => Ok((f.tag, ValueModel::Atom(AtomModel::String(s)))),
            JsonTree::Array(items) => match decode_entries(d, items, items.len() as int) {
                Ok(entries) => Ok((f.tag, ValueModel::Group(entries))),
                Err(e) => Err(e),
            },
            _ => Err(DecodeError::InvalidData),
        },
    }
}

/// The group entries that the first `k` of `items` stand for.
pub open spec fn decode_entries(d: DictionaryModel, items: Seq<JsonTree>, k: int) -> Result<
    Seq<MessageModel>,
    DecodeError,
>
    decreases items, k,
{
    if k <= 0 || k > items.len() {
        Ok(Seq::empty())
    } else {
        match decode_entries(d, items, k - 1) {
            Err(e) => Err(e),
            Ok(list) => match decode_block(d, items[k - 1]) {
                Err(e) => Err(e),
                Ok(m) => Ok(list.push(m)),
            },
        }
    }
}

/// The message that the object `value` stands for.
pub open spec fn decode_block(d: DictionaryModel, value: JsonTree) -> Result<
    MessageModel,
    DecodeError,
>
    decreases value, 0int,
{
    match value {
        JsonTree::Object(members) => decode_members(
            d,
            members,
            members.len() as int,
            MessageModel::empty(),
        ),
        _ => Err(DecodeError::InvalidData),
    }
}

/// The message `init` after the first `k` of `members` have been set in
/// it, one after the other.
pub open spec fn decode_members(
    d: DictionaryModel,
    members: Seq<(Seq<char>, JsonTree)>,
    k: int,
    init: MessageModel,
) -> Result<MessageModel, DecodeError>
    decreases members, k,
{
    if k <= 0 || k > members.len() {
        Ok(init)
    } else {
        match decode_members(d, members, k - 1, init) {
            Err(e) => Err(e),
            Ok(m) => match decode_field_tree(d, members[k - 1].0, members[k - 1].1) {
                Err(e) => Err(e),
                Ok(field) => Ok(m.set(field.0, field.1)),
            },
        }
    }
}

/// The message that the document `value` stands for, for a codec that
/// knows `dicts`.
pub open spec fn decode_tree(dicts: Seq<DictionaryModel>, value: JsonTree) -> Result<
    MessageModel,
    DecodeError,
> {
    match (section(value, "Header"@), section(value, "Body"@), section(value, "Trailer"@)) {
        (Some(header), Some(body), Some(trailer)) => {
            if string_member(header, "MsgType"@) is None {
                Err(DecodeError::Schema)
            } else {
                match string_member(header, "BeginString"@) {
                    None => Err(DecodeError::Schema),
                    Some(begin) => match find_dictionary(dicts, begin) {
                        None => Err(DecodeError::InvalidMsgType),
                        Some(d) => match decode_members(
                            d,
                            header,
                            header.len() as int,
                            MessageModel::empty(),
                        ) {
                            Err(e) => Err(e),
                            Ok(m1) => match decode_members(d, body, body.len() as int, m1) {
                                Err(e) => Err(e),
                                Ok(m2) => decode_members(d, trailer, trailer.len() as int, m2),
                            },
                        },
                    },
                }
            }
        },
        _ => Err(DecodeError::Schema),
    }
}

/// The message that the JSON text `data` stands for.
pub open spec fn decode_text(dicts: Seq<DictionaryModel>, data: Seq<u8>) -> Result<
    MessageModel,
    DecodeError,
> {
    match parsed_json(data) {
        None => Err(DecodeError::Syntax),
        Some(value) => decode_tree(dicts, value),
    }
}

/// The text of a scalar: strings as they are, integers in decimal, booleans
/// as `Y` and `N`.
pub open spec fn atom_text(a: AtomModel) -> Seq<char> {
    match a {
        AtomModel::String(s) => s,
        AtomModel::Int(i) => decode_utf8(int_bytes(i as int)),
        AtomModel::Boolean(b) => if b {
            "Y"@
        } else {
            "N"@
        },
    }
}

/// The JSON value of a field value: a string for an atom, an array of
/// objects for a group.
pub open spec fn translate_value(d: DictionaryModel, v: ValueModel) -> Result<
    JsonTree,
    EncoderError,
>
    decreases v, 0int,
{
    match v {
        ValueModel::Atom(a) => Ok(JsonTree::String(atom_text(a))),
        ValueModel::Group(entries) => match translate_entries(d, entries, entries.len() as int) {
            Ok(items) => Ok(JsonTree::Array(items)),
            Err(e) => Err(e),
        },
    }
}

/// The JSON objects of the first `k` entries of a group.
pub open spec fn translate_entries(d: DictionaryModel, entries: Seq<MessageModel>, k: int) -> Result<
    Seq<JsonTree>,
    EncoderError,
>
    decreases entries, k,
{
    if k <= 0 || k > entries.len() {
        Ok(Seq::empty())
    } else {
        match translate_entries(d, entries, k - 1) {
            Err(e) => Err(e),
            Ok(items) => match translate_fields(
                d,
                entries[k - 1].fields,
                entries[k - 1].fields.len() as int,
            ) {
                Err(e) => Err(e),
                Ok(members) => Ok(items.push(JsonTree::Object(members))),
            },
        }
    }
}

/// The JSON members of the first `k` of `fields`, each under the name that
/// the dictionary gives to its tag.
pub open spec fn translate_fields(d: DictionaryModel, fields: Seq<(u32, ValueModel)>, k: int) -> Result<
    Seq<(Seq<char>, JsonTree)>,
    EncoderError,
>
    decreases fields, k,
{
    if k <= 0 || k > fields.len() {
        Ok(Seq::empty())
    } else {
        match translate_fields(d, fields, k - 1) {
            Err(e) => Err(e),
            Ok(members) => match d.field_by_tag(fields[k - 1].0) {
                None => Err(EncoderError::Dictionary),
                Some(f) => match translate_value(d, fields[k - 1].1) {
                    Err(e) => Err(e),
                    Ok(j) => Ok(members.push((f.name, j))),
                },
            },
        }
    }
}

/// The three sections of a message in the making.
pub struct Sections {
    pub header: Seq<(Seq<char>, JsonTree)>,
    pub body: Seq<(Seq<char>, JsonTree)>,
    pub trailer: Seq<(Seq<char>, JsonTree)>,
}

/// The sections `init` after the first `k` of `fields` have been added,
/// each to the header or the trailer where the dictionary's standard header
/// or trailer contains it, and to the body otherwise.
pub open spec fn partition(
    d: DictionaryModel,
    fields: Seq<(u32, ValueModel)>,
    k: int,
    init: Sections,
) -> Result<Sections, EncoderError>
    decreases k,
{
    if k <= 0 || k > fields.len() {
        Ok(init)
    } else {
        match partition(d, fields, k - 1, init) {
            Err(e) => Err(e),
            Ok(s) => match d.field_by_tag(fields[k - 1].0) {
                None => Err(EncoderError::Dictionary),
                Some(f) => match translate_value(d, fields[k - 1].1) {
                    Err(e) => Err(e),
                    Ok(j) => if d.in_header(f.tag) {
                        Ok(Sections { header: s.header.push((f.name, j)), ..s })
                    } else if d.in_trailer(f.tag) {
                        Ok(Sections { trailer: s.trailer.push((f.name, j)), ..s })
                    } else {
                        Ok(Sections { body: s.body.push((f.name, j)), ..s })
                    },
                },
            },
        }
    }
}

/// The document with the three sections.
pub open spec fn document(s: Sections) -> JsonTree {
    JsonTree::Object(
        seq![
            ("Header"@, JsonTree::Object(s.header)),
            ("Body"@, JsonTree::Object(s.body)),
            ("Trailer"@, JsonTree::Object(s.trailer)),
        ],
    )
}

/// The JSON document of the message `m`, for a codec that knows `dicts`:
/// `BeginString` (tag 8) selects the dictionary, `MsgType` (tag 35) opens
/// the header, and every field goes to its section under its name.
pub open spec fn encode_tree(dicts: Seq<DictionaryModel>, m: MessageModel) -> Result<
    JsonTree,
    EncoderError,
> {
    match m.get(8) {
        Some(ValueModel::Atom(AtomModel::String(begin))) => match find_dictionary(dicts, begin) {
            None => Err(EncoderError::Dictionary),
            Some(d) => match m.get(35) {
                Some(ValueModel::Atom(AtomModel::String(msg_type))) => match partition(
                    d,
                    m.fields,
                    m.fields.len() as int,
                    Sections {
                        header: seq![("MsgType"@, JsonTree::String(msg_type))],
                        body: Seq::empty(),
                        trailer: Seq::empty(),
                    },
                ) {
                    Err(e) => Err(e),
                    Ok(s) => Ok(document(s)),
                },
                _ => Err(EncoderError::Dictionary),
            },
        },
        _ => Err(EncoderError::Dictionary),
    }
}

/// The bytes that stand for a document equal to `tree` up to the order of
/// members, compact or indented.
pub open spec fn is_text_of(bytes: Seq<u8>, tree: JsonTree, pretty: bool) -> bool {
    exists|t: JsonTree| json_equiv(t, tree) && written_text(t, pretty) == Some(bytes)
}

/// Whether the serializer fails on a document equal to `tree` up to the
/// order of members.
pub open spec fn no_text_of(tree: JsonTree, pretty: bool) -> bool {
    exists|t: JsonTree| json_equiv(t, tree) && written_text(t, pretty) is None
}

/// A codec device for the JSON data format. Its dictionaries are always
/// well formed.
#[derive(Debug)]
pub struct Codec<T, Z> {
    dictionaries: Vec<Dictionary>,
    message: T,
    config: Z,
}

/// Whether every dictionary of a list is well formed.
pub open spec fn all_well_formed(dictionaries: Seq<DictionaryModel>) -> bool {
    forall|i: int| 0 <= i < dictionaries.len() ==> (#[trigger] dictionaries[i]).wf()
}

impl<T, Z> Codec<T, Z> {
    #[verifier::type_invariant]
    spec fn well_formed(&self) -> bool {
        all_well_formed(dictionaries_model(self.dictionaries@))
    }
}

impl<T, Z> Clone for Codec<T, Z> where T: TsrMessageRef + Clone, Z: Config {
    fn clone(&self) -> (r: Self)
        ensures
            r.dictionaries() == self.dictionaries(),
            cloned(self.config(), r.config()),
    {
        proof {
            use_type_invariant(self);
        }
        let mut dictionaries: Vec<Dictionary> = Vec::new();
        let mut i: usize = 0;
        while i < self.dictionaries.len()
            invariant
                i <= self.dictionaries.len(),
                dictionaries.len() == i,
                forall|k: int| 0 <= k < i ==> (#[trigger] dictionaries[k])@ == self.dictionaries[k]@,
            decreases self.dictionaries.len() - i,
        {
            dictionaries.push(self.dictionaries[i].clone());
            i = i + 1;
        }
        assert(dictionaries_model(dictionaries@) =~= dictionaries_model(self.dictionaries@));
        Codec { dictionaries, message: self.message.clone(), config: self.config.clone() }
    }
}

/// The models of a list of members.
pub open spec fn members_tree(members: Seq<(String, JsonValue)>) -> Seq<(Seq<char>, JsonTree)> {
    Seq::new(members.len(), |i: int| (members[i].0@, members[i].1.tree()))
}

/// The models of a list of dictionaries.
pub open spec fn dictionaries_model(dicts: Seq<Dictionary>) -> Seq<DictionaryModel> {
    dicts.map_values(|d: Dictionary| d@)
}

/// Once a member fails, the whole list fails with the same error.
pub proof fn lemma_decode_members_error(
    d: DictionaryModel,
    members: Seq<(Seq<char>, JsonTree)>,
    k: int,
    n: int,
    init: MessageModel,
)
    requires
        0 <= k <= n <= members.len(),
        decode_members(d, members, k, init) is Err,
    ensures
        decode_members(d, members, n, init) == decode_members(d, members, k, init),
    decreases n - k,
{
    if k < n {
        lemma_decode_members_error(d, members, k, n - 1, init);
    }
}

/// Once an entry fails, the whole group fails with the same error.
pub proof fn lemma_decode_entries_error(d: DictionaryModel, items: Seq<JsonTree>, k: int, n: int)
    requires
        0 <= k <= n <= items.len(),
        decode_entries(d, items, k) is Err,
    ensures
        decode_entries(d, items, n) == decode_entries(d, items, k),
    decreases n - k,
{
    if k < n {
        lemma_decode_entries_error(d, items, k, n - 1);
    }
}

/// Once a field fails, the whole list fails.
pub proof fn lemma_translate_fields_error(
    d: DictionaryModel,
    fields: Seq<(u32, ValueModel)>,
    k: int,
    n: int,
)
    requires
        0 <= k <= n <= fields.len(),
        translate_fields(d, fields, k) is Err,
    ensures
        translate_fields(d, fields, n) is Err,
    decreases n - k,
{
    if k < n {
        lemma_translate_fields_error(d, fields, k, n - 1);
    }
}

/// Once an entry fails, the whole group fails.
pub proof fn lemma_translate_entries_error(
    d: DictionaryModel,
    entries: Seq<MessageModel>,
    k: int,
    n: int,
)
    requires
        0 <= k <= n <= entries.len(),
        translate_entries(d, entries, k) is Err,
    ensures
        translate_entries(d, entries, n) is Err,
    decreases n - k,
{
    if k < n {
        lemma_translate_entries_error(d, entries, k, n - 1);
    }
}

/// Once a field fails, the partition fails.
pub proof fn lemma_partition_error(
    d: DictionaryModel,
    fields: Seq<(u32, ValueModel)>,
    k: int,
    n: int,
    init: Sections,
)
    requires
        0 <= k <= n <= fields.len(),
        partition(d, fields, k, init) is Err,
    ensures
        partition(d, fields, n, init) is Err,
    decreases n - k,
{
    if k < n {
        lemma_partition_error(d, fields, k, n - 1, init);
    }
}

impl<T, Z> Codec<T, Z> where T: TsrMessageRef, Z: Config {
    /// The dictionaries that the codec knows.
    pub closed spec fn dictionaries(&self) -> Seq<DictionaryModel> {
        dictionaries_model(self.dictionaries@)
    }

    /// The message that the last successful `decode` produced.
    pub closed spec fn message(&self) -> MessageModel {
        self.message.fields()
    }

    /// The configuration of the codec.
    pub closed spec fn config(&self) -> Z {
        self.config
    }

    /// A codec that knows the dictionary `dict`.
    pub fn new(dict: Dictionary, config: Z) -> (r: Self)
        ensures
            r.dictionaries() == seq![dict@],
            r.message() == MessageModel::empty(),
            r.config() == config,
            all_well_formed(r.dictionaries()),
    {
        proof {
            use_type_invariant(&dict);
        }
        let mut dictionaries: Vec<Dictionary> = Vec::new();
        dictionaries.push(dict);
        assert(dictionaries_model(dictionaries@) =~= seq![dict@]);
        Self { dictionaries, message: T::empty(), config }
    }

    /// The dictionary that the `BeginString` value `begin` selects.
    fn dictionary_for(&self, begin: &str) -> (r: Option<&Dictionary>)
        ensures
            match r {
                Some(d) => find_dictionary(self.dictionaries(), begin@) == Some(d@),
                None => find_dictionary(self.dictionaries(), begin@) is None,
            },
    {
        let mut i: usize = 0;
        while i < self.dictionaries.len()
            invariant
                i <= self.dictionaries.len(),
                self.dictionaries().len() == self.dictionaries.len(),
                find_dictionary_upto(self.dictionaries(), begin@, i as int) is None,
            decreases self.dictionaries.len() - i,
        {
            if self.dictionaries[i].version().has_begin_string(begin) {
                proof {
                    lemma_found_dictionary(
                        self.dictionaries(),
                        begin@,
                        i + 1,
                        self.dictionaries.len() as int,
                    );
                }
                return Some(&self.dictionaries[i]);
            }
            i = i + 1;
        }
        None
    }

    /// Reads one member of an object as a field.
    #[verifier::loop_isolation(false)]
    fn decode_field(&self, dictionary: &Dictionary, key: &str, value: &JsonValue) -> (r: Result<
        (u32, FieldValue),
        DecodeError,
    >)
        ensures
            match r {
                Ok(field) => decode_field_tree(dictionary@, key@, value.tree()) == Ok::<
                    _,
                    DecodeError,
                >((field.0, field.1.model())),
                Err(e) => decode_field_tree(dictionary@, key@, value.tree()) == Err::<
                    (u32, ValueModel),
                    _,
                >(e),
            },
        decreases value, 0int,
    {
        if let Some(field) = dictionary.field_by_name(key) {
            match value {
                JsonValue::String(s) => Ok(
                    (field.tag(), FieldValue::Atom(AtomicValue::String(s.clone()))),
                ),
                JsonValue::Array(values) => {
                    let ghost items = value.tree()->Array_0;
                    let mut group: Vec<Message> = Vec::new();
                    let mut i: usize = 0;
                    assert(Seq::new(0nat, |k: int| group[k].model()) =~= Seq::empty());
                    while i < values.len()
                        invariant
                            i <= values.len(),
                            group.len() == i,
                            decode_entries(dictionary@, items, i as int) == Ok::<_, DecodeError>(
                                Seq::new(i as nat, |k: int| group[k].model()),
                            ),
                        decreases values.len() - i,
                    {
                        assert(items[i as int] == values[i as int].tree());
                        proof {
                            vstd::std_specs::vec::axiom_vec_index_decreases(*values, i as int);
                        }
                        match self.decode_component_block(dictionary, &values[i]) {
                            Ok(block) => {
                                let ghost before = Seq::new(i as nat, |k: int| group[k].model());
                                group.push(block);
                                assert(Seq::new((i + 1) as nat, |k: int| group[k].model())
                                    =~= before.push(block.model()));
                            },
                            Err(e) => {
                                proof {
                                    lemma_decode_entries_error(
                                        dictionary@,
                                        items,
                                        i + 1,
                                        items.len() as int,
                                    );
                                }
                                return Err(e);
                            },
                        }
                        i = i + 1;
                    }
                    let r = FieldValue::Group(group);
                    assert(r.model()->Group_0 =~= Seq::new(i as nat, |k: int| group[k].model()));
                    Ok((field.tag(), r))
                },
                _ => Err(DecodeError::InvalidData),
            }
        } else {
            Err(DecodeError::InvalidData)
        }
    }

    /// Reads one entry of a group: an object whose members are fields.
    fn decode_component_block(&self, dictionary: &Dictionary, value: &JsonValue) -> (r: Result<
        Message,
        DecodeError,
    >)
        ensures
            match r {
                Ok(m) => decode_block(dictionary@, value.tree()) == Ok::<_, DecodeError>(m.model()),
                Err(e) => decode_block(dictionary@, value.tree()) == Err::<MessageModel, _>(e),
            },
        decreases value, 1int,
    {
        match value {
            JsonValue::Object(members) => {
                assert(value.tree()->Object_0 =~= members_tree(members@));
                self.decode_into(dictionary, members, Message::new(), Ghost(value))
            },
            _ => Err(DecodeError::InvalidData),
        }
    }

    /// Sets every member of `members` in `message`, one after the other.
    #[verifier::loop_isolation(false)]
    fn decode_into<M: TsrMessageRef>(
        &self,
        dictionary: &Dictionary,
        members: &Vec<(String, JsonValue)>,
        message: M,
        Ghost(parent): Ghost<&JsonValue>,
    ) -> (r: Result<M, DecodeError>)
        requires
            *parent == JsonValue::Object(*members),
        ensures
            match r {
                Ok(m) => decode_members(
                    dictionary@,
                    members_tree(members@),
                    members.len() as int,
                    message.fields(),
                ) == Ok::<_, DecodeError>(m.fields()),
                Err(e) => decode_members(
                    dictionary@,
                    members_tree(members@),
                    members.len() as int,
                    message.fields(),
                ) == Err::<MessageModel, _>(e),
            },
        decreases parent, 0int,
    {
        let ghost ms = members_tree(members@);
        let ghost init = message.fields();
        let mut message = message;
        let mut i: usize = 0;
        while i < members.len()
            invariant
                i <= members.len(),
                decode_members(dictionary@, ms, i as int, init) == Ok::<_, DecodeError>(
                    message.fields(),
                ),
            decreases members.len() - i,
        {
            proof {
                vstd::std_specs::vec::axiom_vec_index_decreases(*members, i as int);
                assert((*parent)->Object_0 == *members);
                assert(decreases_to!(*parent => (*parent)->Object_0));
            }
            match self.decode_field(dictionary, members[i].0.as_str(), &members[i].1) {
                Ok(field) => {
                    message.set_field(field.0, field.1);
                },
                Err(e) => {
                    proof {
                        lemma_decode_members_error(dictionary@, ms, i + 1, ms.len() as int, init);
                    }
                    return Err(e);
                },
            }
            i = i + 1;
        }
        Ok(message)
    }

    /// The JSON value of a field value.
    #[verifier::loop_isolation(false)]
    fn translate(&self, dict: &Dictionary, field: &FieldValue) -> (r: Result<
        JsonValue,
        EncoderError,
    >)
        ensures
            match r {
                Ok(j) => translate_value(dict@, field.model()) == Ok::<_, EncoderError>(j.tree()),
                Err(e) => translate_value(dict@, field.model()) is Err && e
                    == EncoderError::Dictionary,
            },
        decreases field, 0int,
    {
        match field {
            FieldValue::Atom(AtomicValue::String(c)) => Ok(JsonValue::String(c.clone())),
            FieldValue::Atom(AtomicValue::Int(i)) => {
                let mut digits: Vec<u8> = Vec::new();
                push_int(&mut digits, *i);
                proof {
                    lemma_int_bytes_utf8(*i as int);
                    assert(digits@ =~= int_bytes(*i as int));
                }
                match string_from_utf8(digits) {
                    Some(s) => {
                        proof {
                            encode_utf8_decode_utf8(s@);
                        }
                        Ok(JsonValue::String(s))
                    },
                    None => Err(EncoderError::Dictionary),
                }
            },
            FieldValue::Atom(AtomicValue::Boolean(b)) => Ok(
                JsonValue::String(
                    if *b {
                        "Y".to_owned()
                    } else {
                        "N".to_owned()
                    },
                ),
            ),
            FieldValue::Group(array) => {
                let ghost entries = field.model()->Group_0;
                let mut values: Vec<JsonValue> = Vec::new();
                let mut i: usize = 0;
                assert(Seq::new(0nat, |k: int| values[k].tree()) =~= Seq::empty());
                while i < array.len()
                    invariant
                        i <= array.len(),
                        values.len() == i,
                        translate_entries(dict@, entries, i as int) == Ok::<_, EncoderError>(
                            Seq::new(i as nat, |k: int| values[k].tree()),
                        ),
                    decreases array.len() - i,
                {
                    assert(entries[i as int] == array[i as int].model());
                    proof {
                        vstd::std_specs::vec::axiom_vec_index_decreases(*array, i as int);
                    }
                    match self.translate_message(dict, &array[i]) {
                        Ok(object) => {
                            let ghost before = Seq::new(i as nat, |k: int| values[k].tree());
                            values.push(object);
                            assert(Seq::new((i + 1) as nat, |k: int| values[k].tree())
                                =~= before.push(object.tree()));
                        },
                        Err(e) => {
                            proof {
                                lemma_translate_entries_error(
                                    dict@,
                                    entries,
                                    i + 1,
                                    entries.len() as int,
                                );
                            }
                            return Err(e);
                        },
                    }
                    i = i + 1;
                }
                let r = JsonValue::Array(values);
                assert(r.tree()->Array_0 =~= Seq::new(i as nat, |k: int| values[k].tree()));
                Ok(r)
            },
        }
    }

    /// The JSON object of one entry of a group.
    #[verifier::loop_isolation(false)]
    fn translate_message(&self, dict: &Dictionary, group: &Message) -> (r: Result<
        JsonValue,
        EncoderError,
    >)
        ensures
            match r {
                Ok(j) => translate_fields(
                    dict@,
                    group.model().fields,
                    group.model().fields.len() as int,
                ) == Ok::<_, EncoderError>(j.tree()->Object_0) && j.tree() is Object,
                Err(e) => translate_fields(
                    dict@,
                    group.model().fields,
                    group.model().fields.len() as int,
                ) is Err && e == EncoderError::Dictionary,
            },
        decreases group, 0int,
    {
        let ghost fields = group.model().fields;
        let mut map: Vec<(String, JsonValue)> = Vec::new();
        let mut i: usize = 0;
        assert(members_tree(map@) =~= Seq::empty());
        while i < group.len()
            invariant
                i <= fields.len(),
                map.len() == i,
                translate_fields(dict@, fields, i as int) == Ok::<_, EncoderError>(
                    members_tree(map@),
                ),
            decreases fields.len() - i,
        {
            let item = group.field_at(i);
            proof {
                group.lemma_field_decreases(i as int);
            }
            let field = match dict.field_by_tag(item.0) {
                Some(f) => f,
                None => {
                    proof {
                        lemma_translate_fields_error(dict@, fields, i + 1, fields.len() as int);
                    }
                    return Err(EncoderError::Dictionary);
                },
            };
            let field_name = field.name().to_owned();
            match self.translate(dict, item.1) {
                Ok(field_value) => {
                    let ghost before = members_tree(map@);
                    map.push((field_name, field_value));
                    assert(members_tree(map@) =~= before.push((field@.name, field_value.tree())));
                },
                Err(e) => {
                    proof {
                        lemma_translate_fields_error(dict@, fields, i + 1, fields.len() as int);
                    }
                    return Err(e);
                },
            }
            i = i + 1;
        }
        let r = JsonValue::Object(map);
        assert(r.tree()->Object_0 =~= members_tree(map@));
        Ok(r)
    }

    /// Reads a message from a JSON document. On success the message is kept
    /// in the codec and handed out; on failure the codec keeps the message
    /// that it had.
    pub fn decode_value(&mut self, value: &JsonValue) -> (r: Result<&T, DecodeError>)
        ensures
            all_well_formed(old(self).dictionaries()),
            final(self).dictionaries() == old(self).dictionaries(),
            final(self).config() == old(self).config(),
            match r {
                Ok(m) => decode_tree(old(self).dictionaries(), value.tree()) == Ok::<
                    _,
                    DecodeError,
                >(m.fields()) && final(self).message() == m.fields(),
                Err(e) => decode_tree(old(self).dictionaries(), value.tree()) == Err::<
                    MessageModel,
                    _,
                >(e) && final(self).message() == old(self).message(),
            },
    {
        proof {
            use_type_invariant(&*self);
        }
        let header_value = match value.get("Header") {
            Some(v) => v,
            None => {
                return Err(DecodeError::Schema);
            },
        };
        let header = match header_value {
            JsonValue::Object(members) => members,
            _ => {
                return Err(DecodeError::Schema);
            },
        };
        let body_value = match value.get("Body") {
            Some(v) => v,
            None => {
                return Err(DecodeError::Schema);
            },
        };
        let body = match body_value {
            JsonValue::Object(members) => members,
            _ => {
                return Err(DecodeError::Schema);
            },
        };
        let trailer_value = match value.get("Trailer") {
            Some(v) => v,
            None => {
                return Err(DecodeError::Schema);
            },
        };
        let trailer = match trailer_value {
            JsonValue::Object(members) => members,
            _ => {
                return Err(DecodeError::Schema);
            },
        };
        assert(header_value.tree()->Object_0 =~= members_tree(header@));
        assert(body_value.tree()->Object_0 =~= members_tree(body@));
        assert(trailer_value.tree()->Object_0 =~= members_tree(trailer@));
        let _field_msg_type = match header_value.get("MsgType") {
            Some(JsonValue::String(s)) => s,
            _ => {
                return Err(DecodeError::Schema);
            },
        };
        let field_begin_string = match header_value.get("BeginString") {
            Some(JsonValue::String(s)) => s,
            _ => {
                return Err(DecodeError::Schema);
            },
        };
        let message = {
            let dictionary = match self.dictionary_for(field_begin_string.as_str()) {
                Some(d) => d,
                None => {
                    return Err(DecodeError::InvalidMsgType);
                },
            };
            let m1 = match self.decode_into(dictionary, header, T::empty(), Ghost(header_value)) {
                Ok(m) => m,
                Err(e) => {
                    return Err(e);
                },
            };
            let m2 = match self.decode_into(dictionary, body, m1, Ghost(body_value)) {
                Ok(m) => m,
                Err(e) => {
                    return Err(e);
                },
            };
            match self.decode_into(dictionary, trailer, m2, Ghost(trailer_value)) {
                Ok(m) => m,
                Err(e) => {
                    return Err(e);
                },
            }
        };
        self.message = message;
        Ok(&self.message)
    }

    /// Builds the JSON document of a message.
    #[verifier::loop_isolation(false)]
    pub fn encode_value(&self, message: &Message) -> (r: Result<JsonValue, EncoderError>)
        ensures
            all_well_formed(self.dictionaries()),
            match r {
                Ok(j) => encode_tree(self.dictionaries(), message.model()) == Ok::<
                    _,
                    EncoderError,
                >(j.tree()),
                Err(e) => encode_tree(self.dictionaries(), message.model()) is Err && e
                    == EncoderError::Dictionary,
            },
    {
        proof {
            use_type_invariant(self);
        }
        let dictionary = if let Some(FieldValue::Atom(AtomicValue::String(fix_version))) =
            message.get(8) {
            match self.dictionary_for(fix_version.as_str()) {
                Some(d) => d,
                None => {
                    return Err(EncoderError::Dictionary);
                },
            }
        } else {
            return Err(EncoderError::Dictionary);
        };
        let component_std_header = dictionary.standard_header();
        let component_std_trailer = dictionary.standard_trailer();
        let msg_type = if let Some(FieldValue::Atom(AtomicValue::String(s))) = message.get(35) {
            s
        } else {
            return Err(EncoderError::Dictionary);
        };
        let mut map_body: Vec<(String, JsonValue)> = Vec::new();
        let mut map_trailer: Vec<(String, JsonValue)> = Vec::new();
        let mut map_header: Vec<(String, JsonValue)> = Vec::new();
        map_header.push(("MsgType".to_owned(), JsonValue::String(msg_type.clone())));
        let ghost fields = message.model().fields;
        let ghost init = Sections {
            header: seq![("MsgType"@, JsonTree::String(msg_type@))],
            body: Seq::empty(),
            trailer: Seq::empty(),
        };
        assert(members_tree(map_header@) =~= init.header);
        assert(members_tree(map_body@) =~= init.body);
        assert(members_tree(map_trailer@) =~= init.trailer);
        let mut i: usize = 0;
        while i < message.len()
            invariant
                i <= fields.len(),
                partition(dictionary@, fields, i as int, init) == Ok::<_, EncoderError>(
                    Sections {
                        header: members_tree(map_header@),
                        body: members_tree(map_body@),
                        trailer: members_tree(map_trailer@),
                    },
                ),
            decreases fields.len() - i,
        {
            let item = message.field_at(i);
            let field = match dictionary.field_by_tag(item.0) {
                Some(f) => f,
                None => {
                    proof {
                        lemma_partition_error(dictionary@, fields, i + 1, fields.len() as int, init);
                    }
                    return Err(EncoderError::Dictionary);
                },
            };
            let field_name = field.name().to_owned();
            let field_value = match self.translate(dictionary, item.1) {
                Ok(v) => v,
                Err(e) => {
                    proof {
                        lemma_partition_error(dictionary@, fields, i + 1, fields.len() as int, init);
                    }
                    return Err(e);
                },
            };
            let ghost entry = (field@.name, field_value.tree());
            if component_std_header.contains_field(field) {
                let ghost before = members_tree(map_header@);
                map_header.push((field_name, field_value));
                assert(members_tree(map_header@) =~= before.push(entry));
            } else if component_std_trailer.contains_field(field) {
                let ghost before = members_tree(map_trailer@);
                map_trailer.push((field_name, field_value));
                assert(members_tree(map_trailer@) =~= before.push(entry));
            } else {
                let ghost before = members_tree(map_body@);
                map_body.push((field_name, field_value));
                assert(members_tree(map_body@) =~= before.push(entry));
            }
            i = i + 1;
        }
        let ghost sections = Sections {
            header: members_tree(map_header@),
            body: members_tree(map_body@),
            trailer: members_tree(map_trailer@),
        };
        let header = JsonValue::Object(map_header);
        let body = JsonValue::Object(map_body);
        let trailer = JsonValue::Object(map_trailer);
        assert(header.tree()->Object_0 =~= sections.header);
        assert(body.tree()->Object_0 =~= sections.body);
        assert(trailer.tree()->Object_0 =~= sections.trailer);
        let mut members: Vec<(String, JsonValue)> = Vec::new();
        members.push(("Header".to_owned(), header));
        members.push(("Body".to_owned(), body));
        members.push(("Trailer".to_owned(), trailer));
        let value = JsonValue::Object(members);
        assert(value.tree()->Object_0 =~= document(sections)->Object_0);
        Ok(value)
    }

    /// Reads a message from JSON text. On success the message is kept in the
    /// codec and handed out; on failure the codec keeps the message that it
    /// had.
    pub fn decode(&mut self, data: &[u8]) -> (r: Result<&T, DecodeError>)
        ensures
            all_well_formed(old(self).dictionaries()),
            final(self).dictionaries() == old(self).dictionaries(),
            final(self).config() == old(self).config(),
            match r {
                Ok(m) => decode_text(old(self).dictionaries(), data@) == Ok::<_, DecodeError>(
                    m.fields(),
                ) && final(self).message() == m.fields(),
                Err(e) => decode_text(old(self).dictionaries(), data@) == Err::<MessageModel, _>(e)
                    && final(self).message() == old(self).message(),
            },
    {
        proof {
            use_type_invariant(&*self);
        }
        let value = match parse(data) {
            Some(v) => v,
            None => {
                return Err(DecodeError::Syntax);
            },
        };
        self.decode_value(&value)
    }

    /// Appends the JSON text of `message` to `buffer` and returns the number
    /// of bytes written. The text is compact or indented as the
    /// configuration says. The sink is full where the serializer fails or
    /// the sink does not take the text. Nothing is written on failure.
    pub fn encode<B: Buffer>(&mut self, buffer: &mut B, message: &Message) -> (r: Result<
        usize,
        EncoderError,
    >)
        ensures
            all_well_formed(old(self).dictionaries()),
            final(self).dictionaries() == old(self).dictionaries(),
            final(self).message() == old(self).message(),
            final(self).config() == old(self).config(),
            match r {
                Ok(n) => encode_tree(old(self).dictionaries(), message.model()) matches Ok(tree)
                    && exists|bytes: Seq<u8>|
                    #[trigger] is_text_of(bytes, tree, old(self).config().pretty())
                        && old(buffer).accepts(bytes) && n == bytes.len()
                        && final(buffer).contents() == old(buffer).contents() + bytes,
                Err(EncoderError::Dictionary) => encode_tree(
                    old(self).dictionaries(),
                    message.model(),
                ) is Err && final(buffer).contents() == old(buffer).contents(),
                Err(EncoderError::BufferFull) => encode_tree(
                    old(self).dictionaries(),
                    message.model(),
                ) matches Ok(tree) && final(buffer).contents() == old(buffer).contents() && (
                    no_text_of(tree, old(self).config().pretty()) || exists|bytes: Seq<u8>|
                    #[trigger] is_text_of(bytes, tree, old(self).config().pretty())
                        && !old(buffer).accepts(bytes)),
            },
    {
        let value = match self.encode_value(message) {
            Ok(v) => v,
            Err(e) => {
                return Err(e);
            },
        };
        let ghost tree = value.tree();
        let ghost pretty = self.config.pretty();
        let bytes = match serialize(&value, self.config.pretty_print()) {
            Some(b) => b,
            None => {
                assert(no_text_of(tree, pretty));
                return Err(EncoderError::BufferFull);
            },
        };
        assert(is_text_of(bytes@, tree, pretty));
        if buffer.extend(bytes.as_slice()) {
            assert(exists|b: Seq<u8>|
                #[trigger] is_text_of(b, tree, pretty) && old(buffer).accepts(b) && bytes.len()
                    == b.len() && buffer.contents() == old(buffer).contents() + b) by {
                assert(is_text_of(bytes@, tree, pretty) && old(buffer).accepts(bytes@));
            }
            assert(pretty == old(self).config().pretty());
            Ok(bytes.len())
        } else {
            Err(EncoderError::BufferFull)
        }
    }
}

/// A dictionary found among the first `k` is the one found among all.
pub proof fn lemma_found_dictionary(dicts: Seq<DictionaryModel>, begin: Seq<char>, k: int, n: int)
    requires
        0 < k <= n <= dicts.len(),
        find_dictionary_upto(dicts, begin, k - 1) is None,
        dicts[k - 1].version.begin_string_text() == begin,
    ensures
        find_dictionary_upto(dicts, begin, n) == Some(k - 1),
    decreases n - k,
{
    if k < n {
        lemma_found_dictionary(dicts, begin, k, n - 1);
    }
}

impl<Z, T> Decoder<T> for Codec<T, Z> where T: TsrMessageRef, Z: Config {
    type Error = DecodeError;

    fn decode(&mut self, data: &[u8]) -> (r: Result<&T, Self::Error>)
        ensures
            all_well_formed(old(self).dictionaries()),
            final(self).dictionaries() == old(self).dictionaries(),
            final(self).config() == old(self).config(),
            match r {
                Ok(m) => decode_text(old(self).dictionaries(), data@) == Ok::<_, DecodeError>(
                    m.fields(),
                ) && final(self).message() == m.fields(),
                Err(e) => decode_text(old(self).dictionaries(), data@) == Err::<MessageModel, _>(e)
                    && final(self).message() == old(self).message(),
            },
    {
        Codec::decode(self, data)
    }
}

impl<Z, T> Encoder<Message> for Codec<T, Z> where Z: Config, T: TsrMessageRef {
    type Error = EncoderError;

    fn encode<B: Buffer>(&mut self, buffer: &mut B, message: &Message) -> (r: Result<
        usize,
        Self::Error,
    >)
        ensures
            all_well_formed(old(self).dictionaries()),
            final(self).dictionaries() == old(self).dictionaries(),
            final(self).message() == old(self).message(),
            final(self).config() == old(self).config(),
            match r {
                Ok(n) => encode_tree(old(self).dictionaries(), message.model()) matches Ok(tree)
                    && exists|bytes: Seq<u8>|
                    #[trigger] is_text_of(bytes, tree, old(self).config().pretty())
                        && old(buffer).accepts(bytes) && n == bytes.len()
                        && final(buffer).contents() == old(buffer).contents() + bytes,
                Err(EncoderError::Dictionary) => encode_tree(
                    old(self).dictionaries(),
                    message.model(),
                ) is Err && final(buffer).contents() == old(buffer).contents(),
                Err(EncoderError::BufferFull) => encode_tree(
                    old(self).dictionaries(),
                    message.model(),
                ) matches Ok(tree) && final(buffer).contents() == old(buffer).contents() && (
                    no_text_of(tree, old(self).config().pretty()) || exists|bytes: Seq<u8>|
                    #[trigger] is_text_of(bytes, tree, old(self).config().pretty())
                        && !old(buffer).accepts(bytes)),
            },
    {
        Codec::encode(self, buffer, message)
    }
}

} // verus!
