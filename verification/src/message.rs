//! The message model: a mapping from tag to value that knows nothing of any
//! schema. A value is a scalar or a repeating group, which is a sequence of
//! messages again.

use vstd::prelude::*;

verus! {

/// A scalar value.
#[derive(Debug, PartialEq, Eq)]
pub enum AtomicValue {
    /// Text: strings, characters, decimals, dates and times, as they stand
    /// on the wire.
    String(String),
    /// An integer.
    Int(i64),
    /// A boolean, `Y` or `N` on the wire.
    Boolean(bool),
}

/// The value of a field.
#[derive(Debug, PartialEq, Eq)]
pub enum FieldValue {
    /// A scalar.
    Atom(AtomicValue),
    /// A repeating group: its entries in order.
    Group(Vec<Message>),
}

/// A message: its fields in ascending order of their tags, each tag once.
#[derive(Debug, PartialEq, Eq)]
pub struct Message {
    fields: Vec<(u32, FieldValue)>,
}

/// The mathematical model of an [`AtomicValue`].
pub enum AtomModel {
    String(Seq<char>),
    Int(i64),
    Boolean(bool),
}

/// The mathematical model of a [`FieldValue`].
pub enum ValueModel {
    Atom(AtomModel),
    Group(Seq<MessageModel>),
}

/// The mathematical model of a [`Message`]: pairs of tag and value.
pub struct MessageModel {
    pub fields: Seq<(u32, ValueModel)>,
}

impl View for AtomicValue {
    type V = AtomModel;

    open spec fn view(&self) -> AtomModel {
        match self {
            AtomicValue::String(s) => AtomModel::String(s@),
            AtomicValue::Int(i) => AtomModel::Int(*i),
            AtomicValue::Boolean(b) => AtomModel::Boolean(*b),
        }
    }
}

impl FieldValue {
    /// The model of the value.
    pub open spec fn model(&self) -> ValueModel
        decreases self,
    {
        match self {
            FieldValue::Atom(a) => ValueModel::Atom(a@),
            FieldValue::Group(entries) => ValueModel::Group(
                Seq::new(
                    entries.len() as nat,
                    |i: int|
                        if 0 <= i < entries.len() {
                            entries[i].model()
                        } else {
                            MessageModel::empty()
                        },
                ),
            ),
        }
    }
}

impl MessageModel {
    /// The message without fields.
    pub open spec fn empty() -> MessageModel {
        MessageModel { fields: Seq::empty() }
    }

    /// The tags ascend strictly, so that no tag occurs twice.
    pub open spec fn sorted(self) -> bool {
        forall|i: int, j: int|
            0 <= i < j < self.fields.len() ==> (#[trigger] self.fields[i]).0 < (
            #[trigger] self.fields[j]).0
    }

    /// The first position at or after `k` whose tag is not below `tag`.
    pub open spec fn position_from(self, tag: u32, k: int) -> int
        decreases self.fields.len() - k,
    {
        if k < 0 || k >= self.fields.len() || self.fields[k].0 >= tag {
            k
        } else {
            self.position_from(tag, k + 1)
        }
    }

    /// The position at which `tag` stands or would have to be inserted.
    pub open spec fn position(self, tag: u32) -> int {
        self.position_from(tag, 0)
    }

    /// Whether the message has a field with tag `tag`.
    pub open spec fn contains(self, tag: u32) -> bool {
        self.position(tag) < self.fields.len() && self.fields[self.position(tag)].0 == tag
    }

    /// The value of the field with tag `tag`.
    pub open spec fn get(self, tag: u32) -> Option<ValueModel> {
        if self.contains(tag) {
            Some(self.fields[self.position(tag)].1)
        } else {
            None
        }
    }

    /// The message with the field `tag` set to `value`: replaced where the
    /// tag was present, inserted in order where it was not.
    pub open spec fn set(self, tag: u32, value: ValueModel) -> MessageModel {
        if self.contains(tag) {
            MessageModel { fields: self.fields.update(self.position(tag), (tag, value)) }
        } else {
            MessageModel { fields: self.fields.insert(self.position(tag), (tag, value)) }
        }
    }

    /// The message as a mapping from tag to value.
    pub open spec fn as_map(self) -> Map<u32, ValueModel> {
        Map::new(|tag: u32| self.contains(tag), |tag: u32| self.get(tag).unwrap())
    }
}

/// Where `position_from` lands: every tag before it is below `tag`, and the
/// tag at it is not.
pub proof fn lemma_position(m: MessageModel, tag: u32, k: int)
    requires
        0 <= k <= m.fields.len(),
    ensures
        k <= m.position_from(tag, k) <= m.fields.len(),
        forall|i: int| k <= i < m.position_from(tag, k) ==> (#[trigger] m.fields[i]).0 < tag,
        m.position_from(tag, k) < m.fields.len() ==> m.fields[m.position_from(tag, k)].0 >= tag,
    decreases m.fields.len() - k,
{
    if k < m.fields.len() && m.fields[k].0 < tag {
        lemma_position(m, tag, k + 1);
    }
}

/// In a sorted message the field at position `i` is found under its tag.
pub proof fn lemma_position_of_entry(m: MessageModel, i: int)
    requires
        m.sorted(),
        0 <= i < m.fields.len(),
    ensures
        m.position(m.fields[i].0) == i,
        m.contains(m.fields[i].0),
        m.get(m.fields[i].0) == Some(m.fields[i].1),
{
    let tag = m.fields[i].0;
    lemma_position(m, tag, 0);
    let p = m.position(tag);
    if p < i {
        assert(m.fields[p].0 < m.fields[i].0);
    } else if p > i {
        assert(m.fields[i].0 < tag);
    }
}

/// Setting a field keeps the message sorted; the field is then present with
/// the new value, and every other field is as it was.
pub proof fn lemma_set(m: MessageModel, tag: u32, value: ValueModel)
    requires
        m.sorted(),
    ensures
        m.set(tag, value).sorted(),
        m.set(tag, value).get(tag) == Some(value),
        forall|other: u32| other != tag ==> m.set(tag, value).get(other) == m.get(other),
        m.set(tag, value).as_map() == m.as_map().insert(tag, value),
{
    let r = m.set(tag, value);
    let p = m.position(tag);
    lemma_position(m, tag, 0);
    assert(r.sorted()) by {
        assert forall|i: int, j: int| 0 <= i < j < r.fields.len() implies (#[trigger] r.fields[i]).0
            < (#[trigger] r.fields[j]).0 by {
            if m.contains(tag) {
                assert(r.fields[i].0 == m.fields[i].0);
                assert(r.fields[j].0 == m.fields[j].0);
            } else {
                if i < p && j < p {
                    assert(r.fields[i] == m.fields[i] && r.fields[j] == m.fields[j]);
                } else if i < p && j == p {
                    assert(r.fields[i] == m.fields[i]);
                } else if i < p && j > p {
                    assert(r.fields[i] == m.fields[i] && r.fields[j] == m.fields[j - 1]);
                } else if i == p {
                    assert(r.fields[j] == m.fields[j - 1]);
                    assert(m.fields[p].0 <= m.fields[j - 1].0) by {
                        if p < j - 1 {
                            assert(m.fields[p].0 < m.fields[j - 1].0);
                        }
                    }
                } else {
                    assert(r.fields[i] == m.fields[i - 1] && r.fields[j] == m.fields[j - 1]);
                }
            }
        }
    }
    assert(r.fields[p] == (tag, value));
    lemma_position_of_entry(r, p);
    assert forall|other: u32| other != tag implies r.get(other) == m.get(other) by {
        lemma_position(m, other, 0);
        lemma_position(r, other, 0);
        let q = m.position(other);
        let s = r.position(other);
        if m.contains(other) {
            let at = if m.contains(tag) || q < p {
                q
            } else {
                q + 1
            };
            assert(r.fields[at] == m.fields[q]);
            lemma_position_of_entry(r, at);
        } else if r.contains(other) {
            let back = if m.contains(tag) || s < p {
                s
            } else {
                s - 1
            };
            assert(m.fields[back] == r.fields[s]);
            lemma_position_of_entry(m, back);
        }
    }
    assert forall|k: u32| r.contains(k) == (k == tag || m.contains(k)) by {
        if k != tag {
            assert(r.get(k) == m.get(k));
        }
    }
    assert forall|k: u32| r.contains(k) implies r.get(k).unwrap() == if k == tag {
        value
    } else {
        m.get(k).unwrap()
    } by {
        if k != tag {
            assert(r.get(k) == m.get(k));
        }
    }
    assert(r.as_map() =~= m.as_map().insert(tag, value));
}

impl Message {
    /// The model of the message.
    pub closed spec fn model(&self) -> MessageModel
        decreases self,
    {
        MessageModel {
            fields: Seq::new(
                self.fields.len() as nat,
                |i: int|
                    if 0 <= i < self.fields.len() {
                        (self.fields[i].0, self.fields[i].1.model())
                    } else {
                        (0u32, ValueModel::Group(Seq::empty()))
                    },
            ),
        }
    }

    #[verifier::type_invariant]
    closed spec fn inv(&self) -> bool {
        self.model().sorted()
    }

    /// The message without fields.
    pub fn new() -> (r: Message)
        ensures
            r.model() == MessageModel::empty(),
    {
        let r = Message { fields: Vec::new() };
        assert(r.model().fields =~= Seq::empty());
        r
    }

    /// The number of fields.
    pub fn len(&self) -> (r: usize)
        ensures
            r == self.model().fields.len(),
            self.model().sorted(),
    {
        proof {
            use_type_invariant(self);
        }
        self.fields.len()
    }

    /// The tag and value of the `i`-th field, in ascending order of tags.
    pub fn field_at(&self, i: usize) -> (r: (u32, &FieldValue))
        requires
            i < self.model().fields.len(),
        ensures
            (r.0, r.1.model()) == self.model().fields[i as int],
            *r.1 == self.field_value(i as int),
    {
        (self.fields[i].0, &self.fields[i].1)
    }

    /// A field of a message is smaller than the message, for recursion over
    /// nested groups.
    pub proof fn lemma_field_decreases(&self, i: int)
        requires
            0 <= i < self.model().fields.len(),
        ensures
            decreases_to!(self => self.field_value(i)),
            self.field_value(i).model() == self.model().fields[i].1,
    {
        vstd::std_specs::vec::axiom_vec_index_decreases(self.fields, i);
    }

    /// The value of the `i`-th field.
    pub closed spec fn field_value(&self, i: int) -> FieldValue {
        self.fields[i].1
    }

    /// The position at which `tag` stands or would have to be inserted.
    fn find(&self, tag: u32) -> (p: usize)
        ensures
            p == self.model().position(tag),
            p <= self.model().fields.len(),
    {
        let mut k: usize = 0;
        while k < self.fields.len() && self.fields[k].0 < tag
            invariant
                k <= self.fields.len(),
                self.fields.len() == self.model().fields.len(),
                self.model().position(tag) == self.model().position_from(tag, k as int),
            decreases self.fields.len() - k,
        {
            assert(self.model().fields[k as int].0 == self.fields[k as int].0);
            k = k + 1;
        }
        proof {
            if k < self.fields.len() {
                assert(self.model().fields[k as int].0 == self.fields[k as int].0);
            }
        }
        k
    }

    /// The value of the field with tag `tag`, if the message has one.
    pub fn get(&self, tag: u32) -> (r: Option<&FieldValue>)
        ensures
            match r {
                Some(v) => self.model().get(tag) == Some(v.model()),
                None => self.model().get(tag) is None,
            },
    {
        let p = self.find(tag);
        if p < self.fields.len() {
            assert(self.model().fields[p as int] == (
                self.fields[p as int].0,
                self.fields[p as int].1.model(),
            ));
            if self.fields[p].0 == tag {
                return Some(&self.fields[p].1);
            }
        }
        None
    }

    /// Whether the message has a field with tag `tag`.
    pub fn contains(&self, tag: u32) -> (r: bool)
        ensures
            r == self.model().contains(tag),
    {
        self.get(tag).is_some()
    }

    /// Sets the field `tag` to `value`: the old value is replaced where the
    /// tag was present, and the field is inserted where it was not.
    pub fn set(&mut self, tag: u32, value: FieldValue)
        ensures
            final(self).model() == old(self).model().set(tag, value.model()),
    {
        proof {
            use_type_invariant(&*self);
        }
        let p = self.find(tag);
        let ghost before = self.model();
        let ghost entry = (tag, value.model());
        proof {
            lemma_set(before, tag, value.model());
            if p < self.fields.len() {
                assert(before.fields[p as int].0 == self.fields[p as int].0);
            }
        }
        let mut fields: Vec<(u32, FieldValue)> = Vec::new();
        core::mem::swap(&mut self.fields, &mut fields);
        assert(self.model().fields =~= Seq::empty());
        assert(before.fields =~= Seq::new(
            fields.len() as nat,
            |i: int| (fields[i].0, fields[i].1.model()),
        ));
        if p < fields.len() && fields[p].0 == tag {
            fields.set(p, (tag, value));
        } else {
            fields.insert(p, (tag, value));
        }
        proof {
            let candidate = Message { fields: fields };
            assert(candidate.model().fields =~= before.set(tag, entry.1).fields);
        }
        *self = Message { fields };
    }
}


impl AtomicValue {
    /// A copy of the value.
    pub fn duplicate(&self) -> (r: AtomicValue)
        ensures
            r@ == self@,
    {
        match self {
            AtomicValue::String(s) => AtomicValue::String(s.clone()),
            AtomicValue::Int(i) => AtomicValue::Int(*i),
            AtomicValue::Boolean(b) => AtomicValue::Boolean(*b),
        }
    }
}

impl FieldValue {
    /// The text of the value, where it is a string.
    pub fn as_str(&self) -> (r: Option<&str>)
        ensures
            match r {
                Some(s) => self.model() == ValueModel::Atom(AtomModel::String(s@)),
                None => !(self.model() matches ValueModel::Atom(AtomModel::String(_))),
            },
    {
        match self {
            FieldValue::Atom(AtomicValue::String(s)) => Some(s.as_str()),
            _ => None,
        }
    }

    /// The number of the value, where it is an integer.
    pub fn as_int(&self) -> (r: Option<i64>)
        ensures
            match r {
                Some(i) => self.model() == ValueModel::Atom(AtomModel::Int(i)),
                None => !(self.model() matches ValueModel::Atom(AtomModel::Int(_))),
            },
    {
        match self {
            FieldValue::Atom(AtomicValue::Int(i)) => Some(*i),
            _ => None,
        }
    }

    /// The truth value of the value, where it is a boolean.
    pub fn as_bool(&self) -> (r: Option<bool>)
        ensures
            match r {
                Some(b) => self.model() == ValueModel::Atom(AtomModel::Boolean(b)),
                None => !(self.model() matches ValueModel::Atom(AtomModel::Boolean(_))),
            },
    {
        match self {
            FieldValue::Atom(AtomicValue::Boolean(b)) => Some(*b),
            _ => None,
        }
    }

    /// The entries of the value, where it is a group.
    pub fn as_group(&self) -> (r: Option<&Vec<Message>>)
        ensures
            match r {
                Some(entries) => *self == FieldValue::Group(*entries),
                None => !(self.model() is Group),
            },
    {
        match self {
            FieldValue::Group(entries) => Some(entries),
            _ => None,
        }
    }

    /// A copy of the value, groups and all.
    #[verifier::loop_isolation(false)]
    pub fn duplicate(&self) -> (r: FieldValue)
        ensures
            r.model() == self.model(),
        decreases self, 0nat,
    {
        match self {
            FieldValue::Atom(a) => FieldValue::Atom(a.duplicate()),
            FieldValue::Group(entries) => {
                let mut out: Vec<Message> = Vec::new();
                let mut i: usize = 0;
                while i < entries.len()
                    invariant
                        i <= entries.len(),
                        out.len() == i,
                        *self == FieldValue::Group(*entries),
                        forall|k: int| 0 <= k < i ==> (#[trigger] out[k]).model() == entries[k].model(),
                    decreases entries.len() - i,
                {
                    proof {
                        vstd::std_specs::vec::axiom_vec_index_decreases(*entries, i as int);
                    }
                    out.push(entries[i].duplicate());
                    i = i + 1;
                }
                let r = FieldValue::Group(out);
                assert(r.model()->Group_0 =~= self.model()->Group_0);
                r
            },
        }
    }
}

impl Message {
    /// A copy of the message, groups and all.
    pub fn duplicate(&self) -> (r: Message)
        ensures
            r.model() == self.model(),
        decreases self, 1nat,
    {
        proof {
            use_type_invariant(self);
        }
        let mut out: Vec<(u32, FieldValue)> = Vec::new();
        let mut i: usize = 0;
        while i < self.fields.len()
            invariant
                i <= self.fields.len(),
                out.len() == i,
                forall|k: int|
                    0 <= k < i ==> (#[trigger] out[k]).0 == self.fields[k].0 && out[k].1.model()
                        == self.fields[k].1.model(),
            decreases self.fields.len() - i,
        {
            out.push((self.fields[i].0, self.fields[i].1.duplicate()));
            i = i + 1;
        }
        proof {
            let candidate = Message { fields: out };
            assert(candidate.model().fields =~= self.model().fields);
        }
        Message { fields: out }
    }
}

impl Clone for Message {
    fn clone(&self) -> (r: Self)
        ensures
            r.model() == self.model(),
    {
        self.duplicate()
    }
}

impl Clone for FieldValue {
    fn clone(&self) -> (r: Self)
        ensures
            r.model() == self.model(),
    {
        self.duplicate()
    }
}

impl Default for Message {
    fn default() -> (r: Self)
        ensures
            r.model() == MessageModel::empty(),
    {
        Message::new()
    }
}

/// A cursor over the fields of a message.
pub trait FieldsIterator {
    /// The fields that are still to come.
    spec fn remaining(&self) -> Seq<(u32, ValueModel)>;

    /// Hands out the next field, or `None` at the end.
    fn next(&mut self) -> (r: Option<(u32, &FieldValue)>)
        ensures
            match r {
                Some(entry) => old(self).remaining().len() > 0 && (entry.0, entry.1.model()) == old(
                    self,
                ).remaining()[0] && final(self).remaining() == old(self).remaining().drop_first(),
                None => old(self).remaining().len() == 0 && final(self).remaining() == old(
                    self,
                ).remaining(),
            },
    ;
}

/// The tag that a signed number stands for: the number itself, or, for a
/// negative one, the number that its 32 bits make when read without a sign.
pub open spec fn tag_of(msg_type: i32) -> u32 {
    if msg_type >= 0 {
        msg_type as u32
    } else {
        (msg_type + 0x1_0000_0000) as u32
    }
}

/// The value of the field `tag` in `message`; the group without entries
/// where the message has no such field.
pub open spec fn value_or_empty(message: MessageModel, tag: u32) -> ValueModel {
    match message.get(tag) {
        Some(v) => v,
        None => ValueModel::Group(Seq::empty()),
    }
}

/// The tag that `msg_type` stands for.
pub fn tag_from(msg_type: i32) -> (r: u32)
    ensures
        r == tag_of(msg_type),
{
    if msg_type >= 0 {
        msg_type as u32
    } else {
        let below: u32 = (-(msg_type + 1)) as u32;
        0xffff_ffffu32 - below
    }
}

/// A message that hands its values out by value.
pub trait TsrMessage {
    /// The fields of the message.
    spec fn content(&self) -> MessageModel;

    /// A copy of the value of the field `msg_type`; the group without
    /// entries where the message has no such field. The tag of the field is
    /// `msg_type` taken as an unsigned number of 32 bits.
    fn get_field(&self, msg_type: i32) -> (r: FieldValue)
        ensures
            r.model() == value_or_empty(self.content(), tag_of(msg_type)),
    ;

    /// Sets the field `msg_type` to `val`. The tag of the field is
    /// `msg_type` taken as an unsigned number of 32 bits.
    fn set_field(&mut self, msg_type: i32, val: FieldValue)
        ensures
            final(self).content() == old(self).content().set(tag_of(msg_type), val.model()),
    ;
}

/// A message that hands its values out by reference.
pub trait TsrMessageRef: Sized {
    /// The fields of the message.
    spec fn fields(&self) -> MessageModel;

    /// The message without fields.
    fn empty() -> (r: Self)
        ensures
            r.fields() == MessageModel::empty(),
    ;

    /// The value of the field `msg_type`, if the message has one.
    fn get_field(&self, msg_type: u32) -> (r: Option<&FieldValue>)
        ensures
            match r {
                Some(v) => self.fields().get(msg_type) == Some(v.model()),
                None => self.fields().get(msg_type) is None,
            },
    ;

    /// Sets the field `msg_type` to `val`.
    fn set_field(&mut self, msg_type: u32, val: FieldValue)
        ensures
            final(self).fields() == old(self).fields().set(msg_type, val.model()),
    ;
}

impl TsrMessageRef for Message {
    open spec fn fields(&self) -> MessageModel {
        self.model()
    }

    fn empty() -> (r: Self) {
        Message::new()
    }

    fn get_field(&self, msg_type: u32) -> (r: Option<&FieldValue>) {
        self.get(msg_type)
    }

    fn set_field(&mut self, msg_type: u32, val: FieldValue) {
        self.set(msg_type, val)
    }
}

impl TsrMessage for Message {
    open spec fn content(&self) -> MessageModel {
        self.model()
    }

    fn get_field(&self, msg_type: i32) -> (r: FieldValue) {
        match self.get(tag_from(msg_type)) {
            Some(v) => v.duplicate(),
            None => {
                let r = FieldValue::Group(Vec::new());
                assert(r.model()->Group_0 =~= Seq::empty());
                r
            },
        }
    }

    fn set_field(&mut self, msg_type: i32, val: FieldValue) {
        self.set(tag_from(msg_type), val)
    }
}

/// The fields of a message from a position on, in ascending order of tags.
pub struct MessageFields<'a> {
    message: &'a Message,
    position: usize,
}

impl<'a> MessageFields<'a> {
    #[verifier::type_invariant]
    closed spec fn inv(&self) -> bool {
        self.position <= self.message.model().fields.len()
    }

    /// The message that the cursor walks over.
    pub closed spec fn message(&self) -> MessageModel {
        self.message.model()
    }
}

impl<'a> FieldsIterator for MessageFields<'a> {
    closed spec fn remaining(&self) -> Seq<(u32, ValueModel)> {
        self.message.model().fields.subrange(
            self.position as int,
            self.message.model().fields.len() as int,
        )
    }

    fn next(&mut self) -> (r: Option<(u32, &FieldValue)>) {
        proof {
            use_type_invariant(&*self);
        }
        if self.position < self.message.len() {
            let entry = self.message.field_at(self.position);
            let message = self.message;
            let position = self.position + 1;
            assert(old(self).remaining().drop_first() =~= message.model().fields.subrange(
                position as int,
                message.model().fields.len() as int,
            ));
            *self = MessageFields { message, position };
            Some(entry)
        } else {
            None
        }
    }
}

impl Message {
    /// A cursor that hands out every field of the message, in ascending
    /// order of tags.
    pub fn iter(&self) -> (r: MessageFields<'_>)
        ensures
            r.remaining() == self.model().fields,
            r.message() == self.model(),
    {
        let r = MessageFields { message: self, position: 0 };
        assert(r.remaining() =~= self.model().fields);
        r
    }
}

} // verus!
