//! The dictionary: fields, components, groups and messages of one protocol
//! version, interned into vectors that the members refer to by position.

use crate::text::str_eq;
use crate::version::Version;
use std::collections::HashMap;
use vstd::prelude::*;
use vstd::utf8::encode_utf8;

pub mod loader;

verus! {

/// The closed set of field types.
#[derive(Debug, Clone, Copy, PartialEq, Eq, Structural)]
pub enum BaseType {
    String,
    Char,
    Int,
    Length,
    NumInGroup,
    SeqNum,
    TagNum,
    Float,
    Qty,
    Price,
    PriceOffset,
    Amt,
    Percentage,
    Boolean,
    MultipleCharValue,
    MultipleStringValue,
    Country,
    Currency,
    Exchange,
    MonthYear,
    UTCDate,
    UTCTimeOnly,
    UTCTimestamp,
    LocalMktDate,
    TZTimeOnly,
    TZTimestamp,
    Data,
    XMLData,
    Language,
}

/// One value of an enumerated field.
#[derive(Debug)]
pub struct EnumValue {
    pub code: String,
    pub description: String,
}

/// The definition of a field.
#[derive(Debug)]
pub struct FieldDef {
    pub tag: u32,
    pub name: String,
    pub base_type: BaseType,
    pub enums: Vec<EnumValue>,
}

/// The mathematical model of an [`EnumValue`].
pub struct EnumModel {
    pub code: Seq<char>,
    pub description: Seq<char>,
}

/// The mathematical model of a [`FieldDef`].
pub struct FieldModel {
    pub tag: u32,
    pub name: Seq<char>,
    pub base_type: BaseType,
    pub enums: Seq<EnumModel>,
}

impl View for EnumValue {
    type V = EnumModel;

    open spec fn view(&self) -> EnumModel {
        EnumModel { code: self.code@, description: self.description@ }
    }
}

impl View for FieldDef {
    type V = FieldModel;

    open spec fn view(&self) -> FieldModel {
        FieldModel {
            tag: self.tag,
            name: self.name@,
            base_type: self.base_type,
            enums: self.enums@.map_values(|e: EnumValue| e@),
        }
    }
}

impl Clone for EnumValue {
    fn clone(&self) -> (r: Self)
        ensures
            r@ == self@,
    {
        EnumValue { code: self.code.clone(), description: self.description.clone() }
    }
}

impl Clone for FieldDef {
    fn clone(&self) -> (r: Self)
        ensures
            r@ == self@,
    {
        let mut enums: Vec<EnumValue> = Vec::new();
        let mut i: usize = 0;
        while i < self.enums.len()
            invariant
                i <= self.enums.len(),
                enums.len() == i,
                forall|k: int| 0 <= k < i ==> (#[trigger] enums[k])@ == self.enums[k]@,
            decreases self.enums.len() - i,
        {
            enums.push(self.enums[i].clone());
            i = i + 1;
        }
        let r = FieldDef {
            tag: self.tag,
            name: self.name.clone(),
            base_type: self.base_type,
            enums,
        };
        assert(r@.enums =~= self@.enums);
        r
    }
}

impl FieldDef {
    /// The tag of the field.
    pub fn tag(&self) -> (r: u32)
        ensures
            r == self@.tag,
    {
        self.tag
    }

    /// The name of the field.
    pub fn name(&self) -> (r: &str)
        ensures
            r@ == self@.name,
    {
        self.name.as_str()
    }

    /// The type of the field.
    pub fn base_type(&self) -> (r: BaseType)
        ensures
            r == self@.base_type,
    {
        self.base_type
    }

    /// The number of enumerated values; zero for a field that is not
    /// enumerated.
    pub fn enum_count(&self) -> (r: usize)
        ensures
            r == self@.enums.len(),
    {
        self.enums.len()
    }

    /// The `i`-th enumerated value.
    pub fn enum_value(&self, i: usize) -> (r: &EnumValue)
        requires
            i < self@.enums.len(),
        ensures
            r@ == self@.enums[i as int],
    {
        &self.enums[i]
    }
}

/// One member of a component, a group or a message.
#[derive(Debug)]
pub enum Member {
    /// A field, by its position among the dictionary's fields.
    Field { field: usize, required: bool },
    /// A component, by its position among the dictionary's components.
    Component { component: usize, required: bool },
    /// A repeating group: the position of its counter field among the
    /// dictionary's fields, the tag that opens each entry, and the members
    /// of an entry.
    Group { counter: usize, delimiter: u32, required: bool, members: Vec<Member> },
}

/// The mathematical model of a [`Member`].
pub enum MemberModel {
    Field { field: int, required: bool },
    Component { component: int, required: bool },
    Group { counter: int, delimiter: u32, required: bool, members: Seq<MemberModel> },
}

impl Member {
    /// The model of the member.
    pub open spec fn model(&self) -> MemberModel
        decreases self,
    {
        match self {
            Member::Field { field, required } => MemberModel::Field {
                field: *field as int,
                required: *required,
            },
            Member::Component { component, required } => MemberModel::Component {
                component: *component as int,
                required: *required,
            },
            Member::Group { counter, delimiter, required, members } => MemberModel::Group {
                counter: *counter as int,
                delimiter: *delimiter,
                required: *required,
                members: Seq::new(
                    members.len() as nat,
                    |i: int|
                        if 0 <= i < members.len() {
                            members[i].model()
                        } else {
                            MemberModel::Field { field: 0, required: false }
                        },
                ),
            },
        }
    }
}

impl Member {
    /// A copy of the member, the members of a group and all.
    #[verifier::loop_isolation(false)]
    pub fn duplicate(&self) -> (r: Member)
        ensures
            r.model() == self.model(),
        decreases self,
    {
        match self {
            Member::Field { field, required } => Member::Field {
                field: *field,
                required: *required,
            },
            Member::Component { component, required } => Member::Component {
                component: *component,
                required: *required,
            },
            Member::Group { counter, delimiter, required, members } => {
                let mut out: Vec<Member> = Vec::new();
                let mut i: usize = 0;
                while i < members.len()
                    invariant
                        i <= members.len(),
                        out.len() == i,
                        forall|k: int| 0 <= k < i ==> (#[trigger] out[k]).model() == members[k].model(),
                    decreases members.len() - i,
                {
                    proof {
                        vstd::std_specs::vec::axiom_vec_index_decreases(*members, i as int);
                    }
                    out.push(members[i].duplicate());
                    i = i + 1;
                }
                let r = Member::Group {
                    counter: *counter,
                    delimiter: *delimiter,
                    required: *required,
                    members: out,
                };
                assert(r.model()->Group_members =~= self.model()->Group_members);
                r
            },
        }
    }
}

impl Clone for Member {
    fn clone(&self) -> (r: Self)
        ensures
            r.model() == self.model(),
    {
        self.duplicate()
    }
}

/// A copy of a list of members.
pub fn duplicate_members(members: &Vec<Member>) -> (r: Vec<Member>)
    ensures
        members_model(r@) == members_model(members@),
{
    let mut out: Vec<Member> = Vec::new();
    let mut i: usize = 0;
    while i < members.len()
        invariant
            i <= members.len(),
            out.len() == i,
            forall|k: int| 0 <= k < i ==> (#[trigger] out[k]).model() == members[k].model(),
        decreases members.len() - i,
    {
        out.push(members[i].duplicate());
        i = i + 1;
    }
    assert(members_model(out@) =~= members_model(members@));
    out
}

/// The models of a list of members.
pub open spec fn members_model(members: Seq<Member>) -> Seq<MemberModel> {
    Seq::new(members.len(), |i: int| members[i].model())
}

/// A named, reusable list of members.
#[derive(Debug)]
pub struct ComponentDef {
    pub name: String,
    pub members: Vec<Member>,
}

/// The mathematical model of a [`ComponentDef`].
pub struct ComponentModel {
    pub name: Seq<char>,
    pub members: Seq<MemberModel>,
}

impl View for ComponentDef {
    type V = ComponentModel;

    open spec fn view(&self) -> ComponentModel {
        ComponentModel { name: self.name@, members: members_model(self.members@) }
    }
}

impl Clone for ComponentDef {
    fn clone(&self) -> (r: Self)
        ensures
            r@ == self@,
    {
        ComponentDef { name: self.name.clone(), members: duplicate_members(&self.members) }
    }
}

/// The definition of a message: its `MsgType` code, its name and its members,
/// which begin with the standard header and end with the standard trailer.
#[derive(Debug)]
pub struct MessageDef {
    pub msg_type: String,
    pub name: String,
    pub members: Vec<Member>,
}

/// The mathematical model of a [`MessageDef`].
pub struct MessageDefModel {
    pub msg_type: Seq<char>,
    pub name: Seq<char>,
    pub members: Seq<MemberModel>,
}

impl View for MessageDef {
    type V = MessageDefModel;

    open spec fn view(&self) -> MessageDefModel {
        MessageDefModel {
            msg_type: self.msg_type@,
            name: self.name@,
            members: members_model(self.members@),
        }
    }
}

impl Clone for MessageDef {
    fn clone(&self) -> (r: Self)
        ensures
            r@ == self@,
    {
        MessageDef {
            msg_type: self.msg_type.clone(),
            name: self.name.clone(),
            members: duplicate_members(&self.members),
        }
    }
}

/// The mathematical model of a [`Dictionary`].
pub struct DictionaryModel {
    pub version: Version,
    pub fields: Seq<FieldModel>,
    pub components: Seq<ComponentModel>,
    pub messages: Seq<MessageDefModel>,
}

/// The position of the standard header among the components.
pub const HEADER: usize = 0;

/// The position of the standard trailer among the components.
pub const TRAILER: usize = 1;

/// Whether every position that `m` names exists in a dictionary with the
/// fields `fields` and `components` components, and the counter of every
/// group is a field of type `NumInGroup`.
pub open spec fn member_in_range(m: MemberModel, fields: Seq<FieldModel>, components: int) -> bool
    decreases m,
{
    match m {
        MemberModel::Field { field, .. } => 0 <= field < fields.len(),
        MemberModel::Component { component, .. } => 0 <= component < components,
        MemberModel::Group { counter, members, .. } => {
            &&& 0 <= counter < fields.len()
            &&& fields[counter].base_type == BaseType::NumInGroup
            &&& forall|i: int|
                0 <= i < members.len() ==> member_in_range(
                    #[trigger] members[i],
                    fields,
                    components,
                )
        },
    }
}

/// Whether every member of the list is in range.
pub open spec fn members_in_range(ms: Seq<MemberModel>, fields: Seq<FieldModel>, components: int) -> bool {
    forall|i: int| 0 <= i < ms.len() ==> member_in_range(#[trigger] ms[i], fields, components)
}

/// Whether the members of a message begin with the standard header and end
/// with the standard trailer.
pub open spec fn is_framed(members: Seq<MemberModel>) -> bool {
    &&& members.len() >= 2
    &&& members[0] == MemberModel::Component { component: HEADER as int, required: true }
    &&& members[members.len() - 1] == MemberModel::Component {
        component: TRAILER as int,
        required: true,
    }
}

impl DictionaryModel {
    /// The invariant of a dictionary: tags and names are unique, the standard
    /// header and trailer exist, every member names an existing field or
    /// component, the counter of every group is of type `NumInGroup`, and
    /// every message is framed by the standard header and trailer.
    pub open spec fn wf(self) -> bool {
        &&& forall|i: int, j: int|
            0 <= i < j < self.fields.len() ==> (#[trigger] self.fields[i]).tag != (
            #[trigger] self.fields[j]).tag
        &&& forall|i: int, j: int|
            0 <= i < j < self.fields.len() ==> (#[trigger] self.fields[i]).name != (
            #[trigger] self.fields[j]).name
        &&& self.components.len() >= 2
        &&& self.components[HEADER as int].name == "StandardHeader"@
        &&& self.components[TRAILER as int].name == "StandardTrailer"@
        &&& forall|c: int|
            0 <= c < self.components.len() ==> members_in_range(
                (#[trigger] self.components[c]).members,
                self.fields,
                self.components.len() as int,
            )
        &&& forall|m: int|
            0 <= m < self.messages.len() ==> members_in_range(
                (#[trigger] self.messages[m]).members,
                self.fields,
                self.components.len() as int,
            )
        &&& forall|m: int|
            0 <= m < self.messages.len() ==> is_framed((#[trigger] self.messages[m]).members)
    }

    /// The names of the fields, in order.
    pub open spec fn field_names(self) -> Seq<Seq<char>> {
        Seq::new(self.fields.len(), |i: int| self.fields[i].name)
    }

    /// The names of the components, in order.
    pub open spec fn component_names(self) -> Seq<Seq<char>> {
        Seq::new(self.components.len(), |i: int| self.components[i].name)
    }

    /// The `MsgType` codes of the messages, in order.
    pub open spec fn message_types(self) -> Seq<Seq<char>> {
        Seq::new(self.messages.len(), |i: int| self.messages[i].msg_type)
    }

    /// The position of the field with tag `tag` among the first `k` fields.
    pub open spec fn index_of_tag_upto(self, tag: u32, k: int) -> Option<int>
        decreases k,
    {
        if k <= 0 {
            None
        } else if self.index_of_tag_upto(tag, k - 1) is Some {
            self.index_of_tag_upto(tag, k - 1)
        } else if k <= self.fields.len() && self.fields[k - 1].tag == tag {
            Some(k - 1)
        } else {
            None
        }
    }

    /// The position of the field with tag `tag`.
    pub open spec fn index_of_tag(self, tag: u32) -> Option<int> {
        self.index_of_tag_upto(tag, self.fields.len() as int)
    }

    /// The position of the field called `name` among the first `k` fields.
    pub open spec fn index_of_name_upto(self, name: Seq<char>, k: int) -> Option<int>
        decreases k,
    {
        if k <= 0 {
            None
        } else if self.index_of_name_upto(name, k - 1) is Some {
            self.index_of_name_upto(name, k - 1)
        } else if k <= self.fields.len() && self.fields[k - 1].name == name {
            Some(k - 1)
        } else {
            None
        }
    }

    /// The position of the field called `name`.
    pub open spec fn index_of_name(self, name: Seq<char>) -> Option<int> {
        self.index_of_name_upto(name, self.fields.len() as int)
    }

    /// The field with tag `tag`.
    pub open spec fn field_by_tag(self, tag: u32) -> Option<FieldModel> {
        match self.index_of_tag(tag) {
            Some(i) => Some(self.fields[i]),
            None => None,
        }
    }

    /// The field called `name`.
    pub open spec fn field_by_name(self, name: Seq<char>) -> Option<FieldModel> {
        match self.index_of_name(name) {
            Some(i) => Some(self.fields[i]),
            None => None,
        }
    }

    /// The position of the first component called `name` among the first `k`.
    pub open spec fn index_of_component_upto(self, name: Seq<char>, k: int) -> Option<int>
        decreases k,
    {
        if k <= 0 {
            None
        } else if self.index_of_component_upto(name, k - 1) is Some {
            self.index_of_component_upto(name, k - 1)
        } else if k <= self.components.len() && self.components[k - 1].name == name {
            Some(k - 1)
        } else {
            None
        }
    }

    /// The position of the first component called `name`.
    pub open spec fn index_of_component(self, name: Seq<char>) -> Option<int> {
        self.index_of_component_upto(name, self.components.len() as int)
    }

    /// The position of the first message with the code `msg_type` among the
    /// first `k`.
    pub open spec fn index_of_message_upto(self, msg_type: Seq<char>, k: int) -> Option<int>
        decreases k,
    {
        if k <= 0 {
            None
        } else if self.index_of_message_upto(msg_type, k - 1) is Some {
            self.index_of_message_upto(msg_type, k - 1)
        } else if k <= self.messages.len() && self.messages[k - 1].msg_type == msg_type {
            Some(k - 1)
        } else {
            None
        }
    }

    /// The position of the first message with the code `msg_type`.
    pub open spec fn index_of_message(self, msg_type: Seq<char>) -> Option<int> {
        self.index_of_message_upto(msg_type, self.messages.len() as int)
    }

    /// Whether the field with tag `tag` can be reached from member `m`
    /// through groups and through at most `depth` component references.
    pub open spec fn member_reaches(self, m: MemberModel, tag: u32, depth: nat) -> bool
        decreases depth, m, 0nat,
    {
        match m {
            MemberModel::Field { field, .. } => 0 <= field < self.fields.len()
                && self.fields[field].tag == tag,
            MemberModel::Component { component, .. } => depth > 0 && 0 <= component
                < self.components.len() && self.members_reach(
                self.components[component].members,
                tag,
                (depth - 1) as nat,
            ),
            MemberModel::Group { counter, members, .. } => (0 <= counter < self.fields.len()
                && self.fields[counter].tag == tag) || self.members_reach(members, tag, depth),
        }
    }

    /// Whether one of the members `ms` reaches the field with tag `tag`.
    pub open spec fn members_reach(self, ms: Seq<MemberModel>, tag: u32, depth: nat) -> bool
        decreases depth, ms, 1nat,
    {
        exists|i: int| 0 <= i < ms.len() && self.member_reaches(#[trigger] ms[i], tag, depth)
    }

    /// Whether component `c` contains the field with tag `tag`, directly, in
    /// a group, or in a component that it refers to. A chain of references
    /// is followed through as many components as the dictionary has.
    pub open spec fn component_contains(self, c: int, tag: u32) -> bool {
        0 <= c < self.components.len() && self.members_reach(
            self.components[c].members,
            tag,
            self.components.len(),
        )
    }

    /// The tag that a member puts directly into its parent: the tag of a
    /// field, the tag of the counter of a group, none for a component.
    pub open spec fn member_tag(self, m: MemberModel) -> Option<u32> {
        match m {
            MemberModel::Field { field, .. } => if 0 <= field < self.fields.len() {
                Some(self.fields[field].tag)
            } else {
                None
            },
            MemberModel::Group { counter, .. } => if 0 <= counter < self.fields.len() {
                Some(self.fields[counter].tag)
            } else {
                None
            },
            MemberModel::Component { .. } => None,
        }
    }

    /// The tags that the first `k` of `members` put directly into their
    /// parent, in order.
    pub open spec fn layout_upto(self, members: Seq<MemberModel>, k: int) -> Seq<u32>
        decreases k,
    {
        if k <= 0 || k > members.len() {
            Seq::empty()
        } else {
            match self.member_tag(members[k - 1]) {
                Some(t) => self.layout_upto(members, k - 1).push(t),
                None => self.layout_upto(members, k - 1),
            }
        }
    }

    /// The tags of the fields and group counters that stand directly in
    /// component `c`, in the order of the definition.
    pub open spec fn layout(self, c: int) -> Seq<u32> {
        if 0 <= c < self.components.len() {
            self.layout_upto(self.components[c].members, self.components[c].members.len() as int)
        } else {
            Seq::empty()
        }
    }

    /// The first group among the first `k` of `members`, or inside their
    /// groups, whose counter is the field at position `counter`.
    pub open spec fn find_group_upto(members: Seq<MemberModel>, counter: int, k: int) -> Option<
        MemberModel,
    >
        decreases members, k,
    {
        if k <= 0 || k > members.len() {
            None
        } else {
            match Self::find_group_upto(members, counter, k - 1) {
                Some(g) => Some(g),
                None => match members[k - 1] {
                    MemberModel::Group { counter: c, members: inner, .. } => if c == counter {
                        Some(members[k - 1])
                    } else {
                        Self::find_group_upto(inner, counter, inner.len() as int)
                    },
                    _ => None,
                },
            }
        }
    }

    /// The first such group in the first `k` components.
    pub open spec fn find_group_in_components(self, counter: int, k: int) -> Option<MemberModel>
        decreases k,
    {
        if k <= 0 || k > self.components.len() {
            None
        } else {
            match self.find_group_in_components(counter, k - 1) {
                Some(g) => Some(g),
                None => Self::find_group_upto(
                    self.components[k - 1].members,
                    counter,
                    self.components[k - 1].members.len() as int,
                ),
            }
        }
    }

    /// The first such group in the first `k` messages.
    pub open spec fn find_group_in_messages(self, counter: int, k: int) -> Option<MemberModel>
        decreases k,
    {
        if k <= 0 || k > self.messages.len() {
            None
        } else {
            match self.find_group_in_messages(counter, k - 1) {
                Some(g) => Some(g),
                None => Self::find_group_upto(
                    self.messages[k - 1].members,
                    counter,
                    self.messages[k - 1].members.len() as int,
                ),
            }
        }
    }

    /// The definition of the group that the field with tag `tag` counts:
    /// the first one in the components, else the first one in the messages.
    pub open spec fn group_of(self, tag: u32) -> Option<MemberModel> {
        match self.index_of_tag(tag) {
            None => None,
            Some(counter) => match self.find_group_in_components(
                counter,
                self.components.len() as int,
            ) {
                Some(g) => Some(g),
                None => self.find_group_in_messages(counter, self.messages.len() as int),
            },
        }
    }

    /// Whether `tag` belongs to the entries of the group `group`: it is
    /// reached from the members of the group.
    pub open spec fn group_has(self, group: MemberModel, tag: u32) -> bool {
        match group {
            MemberModel::Group { members, .. } => self.members_reach(
                members,
                tag,
                self.components.len(),
            ),
            _ => false,
        }
    }

    /// Whether the field with tag `tag` belongs to the standard header.
    pub open spec fn in_header(self, tag: u32) -> bool {
        self.component_contains(HEADER as int, tag)
    }

    /// Whether the field with tag `tag` belongs to the standard trailer.
    pub open spec fn in_trailer(self, tag: u32) -> bool {
        self.component_contains(TRAILER as int, tag)
    }
}

/// What `index_of_tag_upto` finds is the first field with the tag.
pub proof fn lemma_index_of_tag(d: DictionaryModel, tag: u32, k: int)
    requires
        0 <= k <= d.fields.len(),
    ensures
        match d.index_of_tag_upto(tag, k) {
            Some(i) => 0 <= i < k && d.fields[i].tag == tag && forall|j: int|
                0 <= j < i ==> (#[trigger] d.fields[j]).tag != tag,
            None => forall|j: int| 0 <= j < k ==> (#[trigger] d.fields[j]).tag != tag,
        },
    decreases k,
{
    if k > 0 {
        lemma_index_of_tag(d, tag, k - 1);
    }
}

/// What `index_of_name_upto` finds is the first field with the name.
pub proof fn lemma_index_of_name(d: DictionaryModel, name: Seq<char>, k: int)
    requires
        0 <= k <= d.fields.len(),
    ensures
        match d.index_of_name_upto(name, k) {
            Some(i) => 0 <= i < k && d.fields[i].name == name && forall|j: int|
                0 <= j < i ==> (#[trigger] d.fields[j]).name != name,
            None => forall|j: int| 0 <= j < k ==> (#[trigger] d.fields[j]).name != name,
        },
    decreases k,
{
    if k > 0 {
        lemma_index_of_name(d, name, k - 1);
    }
}

/// In a well-formed dictionary each field is found again under its tag and
/// under its name.
pub proof fn lemma_field_lookup(d: DictionaryModel, i: int)
    requires
        d.wf(),
        0 <= i < d.fields.len(),
    ensures
        d.index_of_tag(d.fields[i].tag) == Some(i),
        d.index_of_name(d.fields[i].name) == Some(i),
        d.field_by_tag(d.fields[i].tag) == Some(d.fields[i]),
        d.field_by_name(d.fields[i].name) == Some(d.fields[i]),
{
    lemma_index_of_tag(d, d.fields[i].tag, d.fields.len() as int);
    lemma_index_of_name(d, d.fields[i].name, d.fields.len() as int);
}

/// Tag and name determine each other: the field that is found under a tag
/// is found again under its own name, and has that tag.
pub proof fn law_tag_name_round_trip(d: DictionaryModel, tag: u32)
    requires
        d.wf(),
        d.field_by_tag(tag) is Some,
    ensures
        d.field_by_name(d.field_by_tag(tag).unwrap().name) == d.field_by_tag(tag),
        d.field_by_name(d.field_by_tag(tag).unwrap().name).unwrap().tag == tag,
{
    lemma_index_of_tag(d, tag, d.fields.len() as int);
    let i = d.index_of_tag(tag).unwrap();
    lemma_field_lookup(d, i);
}

/// The field found under a name is found again under its own tag.
pub proof fn lemma_name_tag_round_trip(d: DictionaryModel, name: Seq<char>)
    requires
        d.wf(),
        d.field_by_name(name) is Some,
    ensures
        d.field_by_tag(d.field_by_name(name).unwrap().tag) == d.field_by_name(name),
        d.field_by_tag(d.field_by_name(name).unwrap().tag).unwrap().name == name,
{
    lemma_index_of_name(d, name, d.fields.len() as int);
    let i = d.index_of_name(name).unwrap();
    lemma_field_lookup(d, i);
}

/// A dictionary: the schema of one protocol version. It is built once and
/// never changes afterwards.
#[derive(Debug)]
pub struct Dictionary {
    version: Version,
    fields: Vec<FieldDef>,
    components: Vec<ComponentDef>,
    messages: Vec<MessageDef>,
    /// The position of each field, under its tag.
    tag_index: HashMap<u32, usize>,
    /// The positions of the fields, under their names.
    name_index: NameIndex,
    /// The positions of the components, under their names.
    component_index: NameIndex,
    /// The positions of the messages, under their `MsgType` codes.
    message_index: NameIndex,
}

/// The hash of a name, over its bytes.
pub open spec fn name_hash(bytes: Seq<u8>) -> u64
    decreases bytes.len(),
{
    if bytes.len() == 0 {
        0
    } else {
        ((name_hash(bytes.drop_last()) * 31 + bytes.last()) % 0x1_0000_0000) as u64
    }
}

/// Whether `index` holds the position of each of `fields` under its tag,
/// and nothing else.
pub open spec fn tag_indexed(index: Map<u32, usize>, fields: Seq<FieldModel>) -> bool {
    &&& forall|i: int|
        0 <= i < fields.len() ==> index.contains_key((#[trigger] fields[i]).tag) && index[fields[i].tag]
            == i
    &&& forall|t: u32|
        #[trigger] index.contains_key(t) ==> index[t] < fields.len() && fields[index[t] as int].tag
            == t
}

/// Whether `i` is one of the positions `found`.
pub open spec fn has_position(found: Seq<usize>, i: int) -> bool {
    exists|k: int| 0 <= k < found.len() && (#[trigger] found[k]) as int == i
}

/// Whether `index` holds the position of each of `names` under the hash of
/// the name, each list of positions in ascending order, and no position
/// that does not exist.
pub open spec fn bucketed(index: Map<u64, Vec<usize>>, names: Seq<Seq<char>>) -> bool {
    &&& forall|i: int|
        0 <= i < names.len() ==> index.contains_key(name_hash(encode_utf8(#[trigger] names[i])))
            && has_position(index[name_hash(encode_utf8(names[i]))]@, i)
    &&& forall|h: u64, k: int|
        index.contains_key(h) && 0 <= k < index[h]@.len() ==> (#[trigger] index[h]@[k])
            < names.len()
    &&& forall|h: u64, a: int, b: int|
        index.contains_key(h) && 0 <= a < b < index[h]@.len() ==> (#[trigger] index[h]@[a]) < (
        #[trigger] index[h]@[b])
}

/// Whether the positions `found` are where to look for `name` among
/// `names`: they ascend, each exists, and each position of `name` is among
/// them.
pub open spec fn candidates_of(found: Seq<usize>, names: Seq<Seq<char>>, name: Seq<char>) -> bool {
    &&& forall|i: int|
        0 <= i < names.len() && #[trigger] names[i] == name ==> has_position(found, i)
    &&& forall|k: int| 0 <= k < found.len() ==> (#[trigger] found[k]) < names.len()
    &&& forall|a: int, b: int|
        0 <= a < b < found.len() ==> (#[trigger] found[a]) < (#[trigger] found[b])
}

/// The first candidate that carries the name is the first position of the
/// name.
pub proof fn lemma_first_candidate(
    found: Seq<usize>,
    names: Seq<Seq<char>>,
    name: Seq<char>,
    k: int,
)
    requires
        candidates_of(found, names, name),
        0 <= k < found.len(),
        names[found[k] as int] == name,
        forall|x: int| 0 <= x < k ==> names[(#[trigger] found[x]) as int] != name,
    ensures
        forall|i: int| 0 <= i < found[k] ==> #[trigger] names[i] != name,
{
    assert forall|i: int| 0 <= i < found[k] implies #[trigger] names[i] != name by {
        if names[i] == name {
            let at = choose|at: int| 0 <= at < found.len() && (#[trigger] found[at]) as int == i;
            if at < k {
                assert(names[found[at] as int] != name);
            } else if at > k {
                assert(found[k] < found[at]);
            }
        }
    }
}

/// Where no candidate carries the name, the name has no position.
pub proof fn lemma_no_candidate(found: Seq<usize>, names: Seq<Seq<char>>, name: Seq<char>)
    requires
        candidates_of(found, names, name),
        forall|x: int| 0 <= x < found.len() ==> names[(#[trigger] found[x]) as int] != name,
    ensures
        forall|i: int| 0 <= i < names.len() ==> #[trigger] names[i] != name,
{
    assert forall|i: int| 0 <= i < names.len() implies #[trigger] names[i] != name by {
        if names[i] == name {
            let at = choose|at: int| 0 <= at < found.len() && (#[trigger] found[at]) as int == i;
            assert(names[found[at] as int] != name);
        }
    }
}

/// An index from names to positions: a hash map from the hash of a name to
/// the positions of the names with that hash.
#[derive(Debug)]
pub(crate) struct NameIndex {
    buckets: HashMap<u64, Vec<usize>>,
}

impl NameIndex {
    /// Whether the index holds the positions of `names`.
    pub closed spec fn holds(&self, names: Seq<Seq<char>>) -> bool {
        bucketed(self.buckets@, names)
    }

    /// The index of no names.
    pub fn new() -> (r: NameIndex)
        ensures
            r.holds(Seq::empty()),
    {
        broadcast use vstd::std_specs::hash::group_hash_axioms;

        NameIndex { buckets: HashMap::new() }
    }

    /// Enters `name` at `position`, which is the next one.
    pub(crate) fn add(&mut self, name: &str, position: usize, Ghost(names): Ghost<Seq<Seq<char>>>)
        requires
            old(self).holds(names),
            position == names.len(),
        ensures
            final(self).holds(names.push(name@)),
    {
        broadcast use vstd::std_specs::hash::group_hash_axioms;

        let ghost after = names.push(name@);
        let ghost old_index = self.buckets@;
        let h = hash_name(name);
        let mut bucket = match self.buckets.remove(&h) {
            Some(b) => b,
            None => Vec::new(),
        };
        let ghost old_bucket = bucket@;
        bucket.push(position);
        self.buckets.insert(h, bucket);
        proof {
            let index = self.buckets@;
            assert forall|j: int| 0 <= j < after.len() implies index.contains_key(
                name_hash(encode_utf8(#[trigger] after[j])),
            ) && has_position(index[name_hash(encode_utf8(after[j]))]@, j) by {
                let hj = name_hash(encode_utf8(after[j]));
                if j < names.len() {
                    assert(after[j] == names[j]);
                    assert(has_position(old_index[hj]@, j));
                    if hj == h {
                        let k = choose|k: int|
                            0 <= k < old_bucket.len() && (#[trigger] old_bucket[k]) as int == j;
                        assert(bucket@[k] as int == j);
                    }
                } else {
                    assert(bucket@[old_bucket.len() as int] == position);
                }
            }
            assert forall|x: u64, k: int|
                index.contains_key(x) && 0 <= k < index[x]@.len() implies (#[trigger] index[x]@[k])
                < after.len() by {
                if x == h {
                    if k < old_bucket.len() {
                        assert(old_index.contains_key(h));
                        assert(old_index[h]@[k] < names.len());
                    }
                } else {
                    assert(old_index.contains_key(x));
                    assert(old_index[x]@[k] < names.len());
                }
            }
            assert forall|x: u64, a: int, b: int|
                index.contains_key(x) && 0 <= a < b < index[x]@.len() implies (
            #[trigger] index[x]@[a]) < (#[trigger] index[x]@[b]) by {
                if x == h {
                    if b < old_bucket.len() {
                        assert(old_index.contains_key(h));
                        assert(old_index[h]@[a] < old_index[h]@[b]);
                    } else {
                        assert(old_index.contains_key(h) ==> old_index[h]@[a] < names.len());
                    }
                } else {
                    assert(old_index.contains_key(x));
                    assert(old_index[x]@[a] < old_index[x]@[b]);
                }
            }
        }
    }

    /// The positions at which to look for `name`, or `None` where it has
    /// none.
    pub(crate) fn candidates(&self, name: &str, Ghost(names): Ghost<Seq<Seq<char>>>) -> (r: Option<
        &Vec<usize>,
    >)
        requires
            self.holds(names),
        ensures
            match r {
                Some(found) => candidates_of(found@, names, name@),
                None => forall|i: int| 0 <= i < names.len() ==> #[trigger] names[i] != name@,
            },
    {
        broadcast use vstd::std_specs::hash::group_hash_axioms;

        let h = hash_name(name);
        let r = self.buckets.get(&h);
        proof {
            match r {
                Some(found) => {
                    assert(self.buckets@.contains_key(h) && self.buckets@[h] == *found);
                },
                None => {},
            }
        }
        r
    }
}

/// The hash of a name.
pub fn hash_name(name: &str) -> (h: u64)
    ensures
        h == name_hash(encode_utf8(name@)),
{
    let bytes = name.as_bytes();
    let mut h: u64 = 0;
    let mut i: usize = 0;
    assert(bytes@.subrange(0, 0) =~= Seq::<u8>::empty());
    while i < bytes.len()
        invariant
            i <= bytes.len(),
            h < 0x1_0000_0000,
            h == name_hash(bytes@.subrange(0, i as int)),
        decreases bytes.len() - i,
    {
        proof {
            let next = bytes@.subrange(0, i + 1);
            assert(next.drop_last() =~= bytes@.subrange(0, i as int));
            assert(next.last() == bytes@[i as int]);
        }
        h = (h * 31 + bytes[i] as u64) % 0x1_0000_0000;
        i = i + 1;
    }
    assert(bytes@.subrange(0, i as int) =~= bytes@);
    h
}

impl View for Dictionary {
    type V = DictionaryModel;

    closed spec fn view(&self) -> DictionaryModel {
        DictionaryModel {
            version: self.version,
            fields: self.fields@.map_values(|f: FieldDef| f@),
            components: self.components@.map_values(|c: ComponentDef| c@),
            messages: self.messages@.map_values(|m: MessageDef| m@),
        }
    }
}

impl Clone for Dictionary {
    fn clone(&self) -> (r: Self)
        ensures
            r@ == self@,
    {
        proof {
            use_type_invariant(self);
        }
        let mut fields: Vec<FieldDef> = Vec::new();
        let mut i: usize = 0;
        while i < self.fields.len()
            invariant
                i <= self.fields.len(),
                fields.len() == i,
                forall|k: int| 0 <= k < i ==> (#[trigger] fields[k])@ == self.fields[k]@,
            decreases self.fields.len() - i,
        {
            fields.push(self.fields[i].clone());
            i = i + 1;
        }
        let mut components: Vec<ComponentDef> = Vec::new();
        let mut c: usize = 0;
        while c < self.components.len()
            invariant
                c <= self.components.len(),
                components.len() == c,
                forall|k: int| 0 <= k < c ==> (#[trigger] components[k])@ == self.components[k]@,
            decreases self.components.len() - c,
        {
            components.push(self.components[c].clone());
            c = c + 1;
        }
        let mut messages: Vec<MessageDef> = Vec::new();
        let mut m: usize = 0;
        while m < self.messages.len()
            invariant
                m <= self.messages.len(),
                messages.len() == m,
                forall|k: int| 0 <= k < m ==> (#[trigger] messages[k])@ == self.messages[k]@,
            decreases self.messages.len() - m,
        {
            messages.push(self.messages[m].clone());
            m = m + 1;
        }
        proof {
            assert(fields@.map_values(|f: FieldDef| f@) =~= self@.fields);
            assert(components@.map_values(|c: ComponentDef| c@) =~= self@.components);
            assert(messages@.map_values(|m: MessageDef| m@) =~= self@.messages);
        }
        Dictionary::assemble(self.version, fields, components, messages)
    }
}

/// A component of a dictionary, together with the dictionary that resolves
/// the references in it.
#[derive(Debug, Clone, Copy)]
pub struct Component<'a> {
    dictionary: &'a Dictionary,
    index: usize,
}

impl Dictionary {
    /// Whether the indices hold the fields, the components and the messages.
    pub closed spec fn indexed(&self) -> bool {
        &&& tag_indexed(self.tag_index@, self@.fields)
        &&& self.name_index.holds(self@.field_names())
        &&& self.component_index.holds(self@.component_names())
        &&& self.message_index.holds(self@.message_types())
    }

    /// Every dictionary is well formed and indexed.
    #[verifier::type_invariant]
    pub open spec fn inv(&self) -> bool {
        self@.wf() && self.indexed()
    }

    /// Builds a dictionary from its parts, which have to meet the invariant
    /// of the type, and indexes its fields, components and messages.
    pub(crate) fn assemble(
        version: Version,
        fields: Vec<FieldDef>,
        components: Vec<ComponentDef>,
        messages: Vec<MessageDef>,
    ) -> (r: Dictionary)
        requires
            (DictionaryModel {
                version,
                fields: fields@.map_values(|f: FieldDef| f@),
                components: components@.map_values(|c: ComponentDef| c@),
                messages: messages@.map_values(|m: MessageDef| m@),
            }).wf(),
        ensures
            r@ == (DictionaryModel {
                version,
                fields: fields@.map_values(|f: FieldDef| f@),
                components: components@.map_values(|c: ComponentDef| c@),
                messages: messages@.map_values(|m: MessageDef| m@),
            }),
    {
        broadcast use vstd::std_specs::hash::group_hash_axioms;

        let ghost model = DictionaryModel {
            version,
            fields: fields@.map_values(|f: FieldDef| f@),
            components: components@.map_values(|c: ComponentDef| c@),
            messages: messages@.map_values(|m: MessageDef| m@),
        };
        let ghost models = model.fields;
        let mut tag_index: HashMap<u32, usize> = HashMap::new();
        let mut name_index = NameIndex::new();
        let mut i: usize = 0;
        assert(model.field_names().subrange(0, 0) =~= Seq::<Seq<char>>::empty());
        while i < fields.len()
            invariant
                i <= fields.len(),
                models == fields@.map_values(|f: FieldDef| f@),
                models == model.fields,
                forall|a: int, b: int|
                    0 <= a < b < models.len() ==> (#[trigger] models[a]).tag != (
                    #[trigger] models[b]).tag,
                tag_indexed(tag_index@, models.subrange(0, i as int)),
                name_index.holds(model.field_names().subrange(0, i as int)),
            decreases fields.len() - i,
        {
            let ghost before = models.subrange(0, i as int);
            let ghost after = models.subrange(0, i + 1);
            let ghost old_tags = tag_index@;
            let tag = fields[i].tag;
            assert(models[i as int] == fields@[i as int]@);
            tag_index.insert(tag, i);
            name_index.add(
                fields[i].name.as_str(),
                i,
                Ghost(model.field_names().subrange(0, i as int)),
            );
            proof {
                assert(model.field_names().subrange(0, i as int).push(fields[i as int].name@)
                    =~= model.field_names().subrange(0, i + 1));
                assert forall|j: int| 0 <= j < after.len() implies tag_index@.contains_key(
                    (#[trigger] after[j]).tag,
                ) && tag_index@[after[j].tag] == j by {
                    if j < i {
                        assert(after[j] == before[j]);
                        assert(models[j].tag != models[i as int].tag);
                    }
                }
                assert forall|t: u32| #[trigger]
                    tag_index@.contains_key(t) implies tag_index@[t] < after.len()
                    && after[tag_index@[t] as int].tag == t by {
                    if t != tag {
                        assert(old_tags.contains_key(t));
                        assert(after[old_tags[t] as int] == before[old_tags[t] as int]);
                    }
                }
            }
            i = i + 1;
        }
        let mut component_index = NameIndex::new();
        let mut c: usize = 0;
        assert(model.component_names().subrange(0, 0) =~= Seq::<Seq<char>>::empty());
        while c < components.len()
            invariant
                c <= components.len(),
                model.components == components@.map_values(|c: ComponentDef| c@),
                component_index.holds(model.component_names().subrange(0, c as int)),
            decreases components.len() - c,
        {
            assert(model.components[c as int] == components@[c as int]@);
            component_index.add(
                components[c].name.as_str(),
                c,
                Ghost(model.component_names().subrange(0, c as int)),
            );
            assert(model.component_names().subrange(0, c as int).push(components[c as int].name@)
                =~= model.component_names().subrange(0, c + 1));
            c = c + 1;
        }
        let mut message_index = NameIndex::new();
        let mut m: usize = 0;
        assert(model.message_types().subrange(0, 0) =~= Seq::<Seq<char>>::empty());
        while m < messages.len()
            invariant
                m <= messages.len(),
                model.messages == messages@.map_values(|m: MessageDef| m@),
                message_index.holds(model.message_types().subrange(0, m as int)),
            decreases messages.len() - m,
        {
            assert(model.messages[m as int] == messages@[m as int]@);
            message_index.add(
                messages[m].msg_type.as_str(),
                m,
                Ghost(model.message_types().subrange(0, m as int)),
            );
            assert(model.message_types().subrange(0, m as int).push(messages[m as int].msg_type@)
                =~= model.message_types().subrange(0, m + 1));
            m = m + 1;
        }
        assert(models.subrange(0, i as int) =~= models);
        assert(model.field_names().subrange(0, i as int) =~= model.field_names());
        assert(model.component_names().subrange(0, c as int) =~= model.component_names());
        assert(model.message_types().subrange(0, m as int) =~= model.message_types());
        Dictionary {
            version,
            fields,
            components,
            messages,
            tag_index,
            name_index,
            component_index,
            message_index,
        }
    }

    /// A dictionary of `version` with no fields and no messages: only an
    /// empty standard header and an empty standard trailer.
    pub fn new(version: Version) -> (r: Dictionary)
        ensures
            r@.version == version,
            r@.fields.len() == 0,
            r@.messages.len() == 0,
            r@.components.len() == 2,
            r@.components[0].name == "StandardHeader"@,
            r@.components[1].name == "StandardTrailer"@,
            r@.components[0].members.len() == 0,
            r@.components[1].members.len() == 0,
            r@.wf(),
    {
        let mut components: Vec<ComponentDef> = Vec::new();
        components.push(ComponentDef { name: "StandardHeader".to_owned(), members: Vec::new() });
        components.push(ComponentDef { name: "StandardTrailer".to_owned(), members: Vec::new() });
        let fields: Vec<FieldDef> = Vec::new();
        let messages: Vec<MessageDef> = Vec::new();
        proof {
            let model = DictionaryModel {
                version,
                fields: fields@.map_values(|f: FieldDef| f@),
                components: components@.map_values(|c: ComponentDef| c@),
                messages: messages@.map_values(|m: MessageDef| m@),
            };
            assert(model.components[0].members =~= Seq::empty());
            assert(model.components[1].members =~= Seq::empty());
            assert(model.wf());
        }
        Dictionary::assemble(version, fields, components, messages)
    }

    /// The model of the dictionary that holds nothing but an empty standard
    /// header and an empty standard trailer.
    pub open spec fn empty_model() -> DictionaryModel {
        DictionaryModel {
            version: Version::Fix40,
            fields: Seq::empty(),
            components: seq![
                ComponentModel { name: "StandardHeader"@, members: Seq::empty() },
                ComponentModel { name: "StandardTrailer"@, members: Seq::empty() },
            ],
            messages: Seq::empty(),
        }
    }

    /// The dictionary without any field, for use where no schema is known.
    pub fn empty() -> (r: Dictionary)
        ensures
            r@ == Dictionary::empty_model(),
            r@.wf(),
    {
        let r = Dictionary::new(Version::Fix40);
        proof {
            assert(r@.fields =~= Seq::empty());
            assert(r@.messages =~= Seq::empty());
            assert(r@.components[0].members =~= Seq::empty());
            assert(r@.components[1].members =~= Seq::empty());
            assert(r@.components =~= Dictionary::empty_model().components);
        }
        r
    }

    /// The version that the dictionary describes.
    pub fn get_version(&self) -> (r: Version)
        ensures
            r == self@.version,
    {
        self.version
    }

    /// The version that the dictionary describes.
    pub fn version(&self) -> (r: Version)
        ensures
            r == self@.version,
    {
        self.version
    }

    /// The number of fields.
    pub fn field_count(&self) -> (r: usize)
        ensures
            r == self@.fields.len(),
    {
        self.fields.len()
    }

    /// The number of messages.
    pub fn message_count(&self) -> (r: usize)
        ensures
            r == self@.messages.len(),
    {
        self.messages.len()
    }

    /// Whether the dictionary defines no field at all.
    pub fn is_empty(&self) -> (r: bool)
        ensures
            r == (self@.fields.len() == 0),
    {
        self.fields.len() == 0
    }

    /// Looks a field up by its tag, in the index of tags.
    pub fn field_by_tag(&self, tag: u32) -> (r: Option<&FieldDef>)
        ensures
            self@.wf(),
            match r {
                Some(f) => self@.field_by_tag(tag) == Some(f@),
                None => self@.field_by_tag(tag) is None,
            },
    {
        match self.position_of_tag(tag) {
            Some(i) => Some(&self.fields[i]),
            None => None,
        }
    }

    /// Looks a field up by its name, in the index of names.
    pub fn field_by_name(&self, name: &str) -> (r: Option<&FieldDef>)
        ensures
            self@.wf(),
            match r {
                Some(f) => self@.field_by_name(name@) == Some(f@),
                None => self@.field_by_name(name@) is None,
            },
    {
        proof {
            use_type_invariant(self);
            lemma_index_of_name(self@, name@, self@.fields.len() as int);
        }
        let ghost names = self@.field_names();
        let found = match self.name_index.candidates(name, Ghost(names)) {
            Some(f) => f,
            None => {
                assert forall|i: int| 0 <= i < names.len() implies self@.fields[i].name != name@ by {
                    assert(names[i] != name@);
                }
                return None;
            },
        };
        let mut k: usize = 0;
        while k < found.len()
            invariant
                k <= found.len(),
                names == self@.field_names(),
                self@.wf(),
                self@.fields.len() == self.fields.len(),
                candidates_of(found@, names, name@),
                forall|x: int| 0 <= x < k ==> names[(#[trigger] found@[x]) as int] != name@,
            decreases found.len() - k,
        {
            let j = found[k];
            assert(found@[k as int] < names.len());
            if str_eq(self.fields[j].name.as_str(), name) {
                proof {
                    lemma_first_candidate(found@, names, name@, k as int);
                    lemma_index_of_name(self@, name@, self@.fields.len() as int);
                    assert(names[j as int] == name@);
                    match self@.index_of_name(name@) {
                        Some(i) => {
                            assert(names[i] == name@);
                        },
                        None => {},
                    }
                }
                return Some(&self.fields[j]);
            }
            k = k + 1;
        }
        proof {
            lemma_no_candidate(found@, names, name@);
            lemma_index_of_name(self@, name@, self@.fields.len() as int);
            match self@.index_of_name(name@) {
                Some(i) => {
                    assert(names[i] == name@);
                },
                None => {},
            }
        }
        None
    }

    /// Looks a message up by its `MsgType` code, in the index of codes.
    /// Where several messages carry the code, the first one is found.
    pub fn message_by_msgtype(&self, msg_type: &str) -> (r: Option<&MessageDef>)
        ensures
            match r {
                Some(m) => self@.index_of_message(msg_type@) is Some && m@
                    == self@.messages[self@.index_of_message(msg_type@).unwrap()],
                None => self@.index_of_message(msg_type@) is None,
            },
    {
        proof {
            use_type_invariant(self);
            lemma_index_of_message(self@, msg_type@, self@.messages.len() as int);
        }
        let ghost names = self@.message_types();
        let found = match self.message_index.candidates(msg_type, Ghost(names)) {
            Some(f) => f,
            None => {
                proof {
                    match self@.index_of_message(msg_type@) {
                        Some(i) => {
                            assert(names[i] == msg_type@);
                        },
                        None => {},
                    }
                }
                return None;
            },
        };
        let mut k: usize = 0;
        while k < found.len()
            invariant
                k <= found.len(),
                names == self@.message_types(),
                self@.messages.len() == self.messages.len(),
                candidates_of(found@, names, msg_type@),
                forall|x: int| 0 <= x < k ==> names[(#[trigger] found@[x]) as int] != msg_type@,
            decreases found.len() - k,
        {
            let j = found[k];
            assert(found@[k as int] < names.len());
            if str_eq(self.messages[j].msg_type.as_str(), msg_type) {
                proof {
                    lemma_first_candidate(found@, names, msg_type@, k as int);
                    lemma_index_of_message(self@, msg_type@, self@.messages.len() as int);
                    assert(names[j as int] == msg_type@);
                    match self@.index_of_message(msg_type@) {
                        Some(i) => {
                            assert(names[i] == msg_type@);
                            assert(forall|x: int| 0 <= x < i ==> names[x] == self@.messages[x].msg_type);
                        },
                        None => {
                            assert(self@.messages[j as int].msg_type == msg_type@);
                        },
                    }
                }
                return Some(&self.messages[j]);
            }
            k = k + 1;
        }
        proof {
            lemma_no_candidate(found@, names, msg_type@);
            lemma_index_of_message(self@, msg_type@, self@.messages.len() as int);
            match self@.index_of_message(msg_type@) {
                Some(i) => {
                    assert(names[i] == msg_type@);
                },
                None => {},
            }
        }
        None
    }

    /// Looks a component up by its name, in the index of names. Where
    /// several components carry the name, the first one is found.
    pub fn component_by_name(&self, name: &str) -> (r: Option<Component<'_>>)
        ensures
            match r {
                Some(c) => self@.index_of_component(name@) == Some(c.position()) && c.dictionary()
                    == self@,
                None => self@.index_of_component(name@) is None,
            },
    {
        proof {
            use_type_invariant(self);
            lemma_index_of_component(self@, name@, self@.components.len() as int);
        }
        let ghost names = self@.component_names();
        let found = match self.component_index.candidates(name, Ghost(names)) {
            Some(f) => f,
            None => {
                proof {
                    match self@.index_of_component(name@) {
                        Some(i) => {
                            assert(names[i] == name@);
                        },
                        None => {},
                    }
                }
                return None;
            },
        };
        let mut k: usize = 0;
        while k < found.len()
            invariant
                k <= found.len(),
                names == self@.component_names(),
                self@.components.len() == self.components.len(),
                candidates_of(found@, names, name@),
                forall|x: int| 0 <= x < k ==> names[(#[trigger] found@[x]) as int] != name@,
            decreases found.len() - k,
        {
            let j = found[k];
            assert(found@[k as int] < names.len());
            if str_eq(self.components[j].name.as_str(), name) {
                proof {
                    lemma_first_candidate(found@, names, name@, k as int);
                    lemma_index_of_component(self@, name@, self@.components.len() as int);
                    assert(names[j as int] == name@);
                    match self@.index_of_component(name@) {
                        Some(i) => {
                            assert(names[i] == name@);
                            assert(forall|x: int| 0 <= x < i ==> names[x] == self@.components[x].name);
                        },
                        None => {
                            assert(self@.components[j as int].name == name@);
                        },
                    }
                }
                return Some(Component { dictionary: self, index: j });
            }
            k = k + 1;
        }
        proof {
            lemma_no_candidate(found@, names, name@);
            lemma_index_of_component(self@, name@, self@.components.len() as int);
            match self@.index_of_component(name@) {
                Some(i) => {
                    assert(names[i] == name@);
                },
                None => {},
            }
        }
        None
    }

    /// The standard header, which every dictionary has.
    pub fn standard_header(&self) -> (r: Component<'_>)
        ensures
            r.position() == HEADER,
            r.dictionary() == self@,
    {
        proof {
            use_type_invariant(self);
        }
        Component { dictionary: self, index: HEADER }
    }

    /// The standard trailer, which every dictionary has.
    pub fn standard_trailer(&self) -> (r: Component<'_>)
        ensures
            r.position() == TRAILER,
            r.dictionary() == self@,
    {
        proof {
            use_type_invariant(self);
        }
        Component { dictionary: self, index: TRAILER }
    }

    /// Whether one of `members` reaches the field with tag `tag` through at
    /// most `depth` component references.
    fn reaches(&self, members: &Vec<Member>, tag: u32, depth: usize) -> (r: bool)
        requires
            members_in_range(
                members_model(members@),
                self@.fields,
                self@.components.len() as int,
            ),
        ensures
            r == self@.members_reach(members_model(members@), tag, depth as nat),
        decreases depth, members,
    {
        proof {
            use_type_invariant(self);
        }
        let ghost ms = members_model(members@);
        let mut i: usize = 0;
        while i < members.len()
            invariant
                i <= members.len(),
                self@.wf(),
                self@.fields.len() == self.fields.len(),
                self@.components.len() == self.components.len(),
                ms == members_model(members@),
                members_in_range(ms, self@.fields, self@.components.len() as int),
                forall|j: int| 0 <= j < i ==> !self@.member_reaches(#[trigger] ms[j], tag, depth as nat),
            decreases members.len() - i,
        {
            assert(member_in_range(ms[i as int], self@.fields, self@.components.len() as int));
            let found = match &members[i] {
                Member::Field { field, .. } => self.fields[*field].tag == tag,
                Member::Component { component, .. } => {
                    if depth > 0 {
                        assert(members_in_range(
                            self@.components[*component as int].members,
                            self@.fields,
                            self@.components.len() as int,
                        ));
                        self.reaches(&self.components[*component].members, tag, depth - 1)
                    } else {
                        false
                    }
                },
                Member::Group { counter, members: inner, .. } => {
                    if self.fields[*counter].tag == tag {
                        true
                    } else {
                        assert(members_model(inner@) =~= ms[i as int]->members);
                        self.reaches(inner, tag, depth)
                    }
                },
            };
            assert(found == self@.member_reaches(ms[i as int], tag, depth as nat));
            if found {
                return true;
            }
            i = i + 1;
        }
        false
    }
}

/// What `index_of_message_upto` finds is the first message with the code.
pub proof fn lemma_index_of_message(d: DictionaryModel, msg_type: Seq<char>, k: int)
    requires
        0 <= k <= d.messages.len(),
    ensures
        match d.index_of_message_upto(msg_type, k) {
            Some(i) => 0 <= i < k && d.messages[i].msg_type == msg_type && forall|j: int|
                0 <= j < i ==> (#[trigger] d.messages[j]).msg_type != msg_type,
            None => forall|j: int| 0 <= j < k ==> (#[trigger] d.messages[j]).msg_type != msg_type,
        },
    decreases k,
{
    if k > 0 {
        lemma_index_of_message(d, msg_type, k - 1);
    }
}

/// What `index_of_component_upto` finds is the first component with the
/// name.
pub proof fn lemma_index_of_component(d: DictionaryModel, name: Seq<char>, k: int)
    requires
        0 <= k <= d.components.len(),
    ensures
        match d.index_of_component_upto(name, k) {
            Some(i) => 0 <= i < k && d.components[i].name == name && forall|j: int|
                0 <= j < i ==> (#[trigger] d.components[j]).name != name,
            None => forall|j: int| 0 <= j < k ==> (#[trigger] d.components[j]).name != name,
        },
    decreases k,
{
    if k > 0 {
        lemma_index_of_component(d, name, k - 1);
    }
}

impl<'a> Component<'a> {
    #[verifier::type_invariant]
    closed spec fn inv(&self) -> bool {
        self.index < self.dictionary@.components.len()
    }

    /// The position of the component among the dictionary's components.
    pub closed spec fn position(&self) -> int {
        self.index as int
    }

    /// The dictionary that the component belongs to.
    pub closed spec fn dictionary(&self) -> DictionaryModel {
        self.dictionary@
    }

    /// The name of the component.
    pub fn name(&self) -> (r: &str)
        ensures
            0 <= self.position() < self.dictionary().components.len(),
            r@ == self.dictionary().components[self.position()].name,
    {
        proof {
            use_type_invariant(self);
        }
        self.dictionary.components[self.index].name.as_str()
    }

    /// Whether `field` can be reached from the component: directly, inside
    /// one of its groups, or through the components that it refers to.
    pub fn contains_field(&self, field: &FieldDef) -> (r: bool)
        ensures
            r == self.dictionary().component_contains(self.position(), field@.tag),
    {
        proof {
            use_type_invariant(self);
            use_type_invariant(self.dictionary);
        }
        let d = self.dictionary;
        assert(members_model(d.components[self.index as int].members@)
            == d@.components[self.index as int].members);
        d.reaches(&d.components[self.index].members, field.tag, d.components.len())
    }
}

/// What `find_group_upto` finds is a group with the wanted counter, and it
/// is in range where the members are.
pub proof fn lemma_find_group(
    members: Seq<MemberModel>,
    counter: int,
    k: int,
    fields: Seq<FieldModel>,
    components: int,
)
    requires
        members_in_range(members, fields, components),
        DictionaryModel::find_group_upto(members, counter, k) is Some,
    ensures
        ({
            let g = DictionaryModel::find_group_upto(members, counter, k)->Some_0;
            g is Group && g->counter == counter && member_in_range(g, fields, components)
        }),
    decreases members, k,
{
    if 0 < k <= members.len() {
        if DictionaryModel::find_group_upto(members, counter, k - 1) is Some {
            lemma_find_group(members, counter, k - 1, fields, components);
        } else {
            match members[k - 1] {
                MemberModel::Group { counter: c, members: inner, .. } => {
                    assert(member_in_range(members[k - 1], fields, components));
                    if c != counter {
                        lemma_find_group(inner, counter, inner.len() as int, fields, components);
                    }
                },
                _ => {},
            }
        }
    }
}

/// A group found among the first `k` members is the one found among all.
pub proof fn lemma_found_group(members: Seq<MemberModel>, counter: int, k: int, n: int)
    requires
        0 <= k <= n <= members.len(),
        DictionaryModel::find_group_upto(members, counter, k) is Some,
    ensures
        DictionaryModel::find_group_upto(members, counter, n) == DictionaryModel::find_group_upto(
            members,
            counter,
            k,
        ),
    decreases n - k,
{
    if k < n {
        lemma_found_group(members, counter, k, n - 1);
    }
}

/// A group found in the first `k` components is the one found in all.
pub proof fn lemma_found_group_in_components(d: DictionaryModel, counter: int, k: int, n: int)
    requires
        0 <= k <= n <= d.components.len(),
        d.find_group_in_components(counter, k) is Some,
    ensures
        d.find_group_in_components(counter, n) == d.find_group_in_components(counter, k),
    decreases n - k,
{
    if k < n {
        lemma_found_group_in_components(d, counter, k, n - 1);
    }
}

/// A group found in the first `k` messages is the one found in all.
pub proof fn lemma_found_group_in_messages(d: DictionaryModel, counter: int, k: int, n: int)
    requires
        0 <= k <= n <= d.messages.len(),
        d.find_group_in_messages(counter, k) is Some,
    ensures
        d.find_group_in_messages(counter, n) == d.find_group_in_messages(counter, k),
    decreases n - k,
{
    if k < n {
        lemma_found_group_in_messages(d, counter, k, n - 1);
    }
}

/// A repeating group of a dictionary, together with the dictionary that
/// resolves the references in it.
#[derive(Debug, Clone, Copy)]
pub struct Group<'a> {
    dictionary: &'a Dictionary,
    member: &'a Member,
}

impl<'a> Group<'a> {
    #[verifier::type_invariant]
    closed spec fn inv(&self) -> bool {
        self.member.model() is Group && member_in_range(
            self.member.model(),
            self.dictionary@.fields,
            self.dictionary@.components.len() as int,
        )
    }

    /// The definition of the group.
    pub closed spec fn model(&self) -> MemberModel {
        self.member.model()
    }

    /// The dictionary that the group belongs to.
    pub closed spec fn dictionary(&self) -> DictionaryModel {
        self.dictionary@
    }

    /// The tag that opens each entry of the group.
    pub fn delimiter(&self) -> (r: u32)
        ensures
            self.model() is Group,
            r == self.model()->delimiter,
    {
        proof {
            use_type_invariant(self);
        }
        match self.member {
            Member::Group { delimiter, .. } => *delimiter,
            _ => 0,
        }
    }

    /// Whether the field with tag `tag` belongs to the entries of the group.
    pub fn contains_tag(&self, tag: u32) -> (r: bool)
        ensures
            r == self.dictionary().group_has(self.model(), tag),
    {
        proof {
            use_type_invariant(self);
            use_type_invariant(self.dictionary);
        }
        match self.member {
            Member::Group { members, .. } => {
                assert(members_model(members@) =~= self.member.model()->Group_members);
                self.dictionary.reaches(members, tag, self.dictionary.components.len())
            },
            _ => false,
        }
    }
}

/// The first group among `members`, or inside their groups, whose counter
/// is the field at position `counter`.
#[verifier::loop_isolation(false)]
fn find_group<'a>(members: &'a Vec<Member>, counter: usize) -> (r: Option<&'a Member>)
    ensures
        match r {
            Some(m) => DictionaryModel::find_group_upto(
                members_model(members@),
                counter as int,
                members.len() as int,
            ) == Some(m.model()),
            None => DictionaryModel::find_group_upto(
                members_model(members@),
                counter as int,
                members.len() as int,
            ) is None,
        },
    decreases members,
{
    let ghost ms = members_model(members@);
    let mut i: usize = 0;
    while i < members.len()
        invariant
            i <= members.len(),
            DictionaryModel::find_group_upto(ms, counter as int, i as int) is None,
        decreases members.len() - i,
    {
        match &members[i] {
            Member::Group { counter: c, members: inner, .. } => {
                assert(members_model(inner@) =~= ms[i as int]->Group_members);
                if *c == counter {
                    proof {
                        lemma_found_group(ms, counter as int, i + 1, ms.len() as int);
                    }
                    return Some(&members[i]);
                }
                proof {
                    vstd::std_specs::vec::axiom_vec_index_decreases(*members, i as int);
                }
                match find_group(inner, counter) {
                    Some(m) => {
                        proof {
                            lemma_found_group(ms, counter as int, i + 1, ms.len() as int);
                        }
                        return Some(m);
                    },
                    None => {},
                }
            },
            _ => {},
        }
        i = i + 1;
    }
    None
}

impl Dictionary {
    /// The tags of the fields and group counters that stand directly in the
    /// members `members`, in order.
    #[verifier::loop_isolation(false)]
    fn layout_of(&self, members: &Vec<Member>) -> (r: Vec<u32>)
        ensures
            r@ == self@.layout_upto(members_model(members@), members.len() as int),
    {
        let ghost ms = members_model(members@);
        let mut out: Vec<u32> = Vec::new();
        let mut i: usize = 0;
        while i < members.len()
            invariant
                i <= members.len(),
                self@.fields.len() == self.fields.len(),
                out@ =~= self@.layout_upto(ms, i as int),
            decreases members.len() - i,
        {
            match &members[i] {
                Member::Field { field, .. } => {
                    if *field < self.fields.len() {
                        out.push(self.fields[*field].tag);
                    }
                },
                Member::Group { counter, .. } => {
                    if *counter < self.fields.len() {
                        out.push(self.fields[*counter].tag);
                    }
                },
                Member::Component { .. } => {},
            }
            i = i + 1;
        }
        out
    }

    /// The tags of the standard header, in the order of the definition.
    pub fn header_layout(&self) -> (r: Vec<u32>)
        ensures
            r@ == self@.layout(HEADER as int),
    {
        proof {
            use_type_invariant(self);
        }
        assert(members_model(self.components[HEADER as int].members@)
            == self@.components[HEADER as int].members);
        self.layout_of(&self.components[HEADER].members)
    }

    /// The tags of the standard trailer, in the order of the definition.
    pub fn trailer_layout(&self) -> (r: Vec<u32>)
        ensures
            r@ == self@.layout(TRAILER as int),
    {
        proof {
            use_type_invariant(self);
        }
        assert(members_model(self.components[TRAILER as int].members@)
            == self@.components[TRAILER as int].members);
        self.layout_of(&self.components[TRAILER].members)
    }

    /// The position of the field with tag `tag`, from the index of tags.
    fn position_of_tag(&self, tag: u32) -> (r: Option<usize>)
        ensures
            self@.wf(),
            match r {
                Some(i) => self@.index_of_tag(tag) == Some(i as int) && i < self@.fields.len(),
                None => self@.index_of_tag(tag) is None,
            },
    {
        broadcast use vstd::std_specs::hash::group_hash_axioms;

        proof {
            use_type_invariant(self);
            lemma_index_of_tag(self@, tag, self@.fields.len() as int);
        }
        match self.tag_index.get(&tag) {
            Some(i) => {
                proof {
                    let found = self@.index_of_tag(tag);
                    assert(self.tag_index@.contains_key(tag));
                    assert(*i < self@.fields.len());
                    assert(self@.fields[*i as int].tag == tag);
                    if found is Some {
                        assert(self.tag_index@[self@.fields[found->Some_0].tag] == found->Some_0);
                    }
                }
                Some(*i)
            },
            None => {
                proof {
                    if self@.index_of_tag(tag) is Some {
                        let found = self@.index_of_tag(tag)->Some_0;
                        assert(self.tag_index@.contains_key(self@.fields[found].tag));
                    }
                }
                None
            },
        }
    }

    /// The repeating group that the field with tag `tag` counts.
    #[verifier::loop_isolation(false)]
    pub fn group_by_counter(&self, tag: u32) -> (r: Option<Group<'_>>)
        ensures
            match r {
                Some(g) => self@.group_of(tag) == Some(g.model()) && g.dictionary() == self@
                    && g.model() is Group,
                None => self@.group_of(tag) is None,
            },
    {
        proof {
            use_type_invariant(self);
        }
        let counter = match self.position_of_tag(tag) {
            Some(c) => c,
            None => {
                return None;
            },
        };
        let mut c: usize = 0;
        while c < self.components.len()
            invariant
                c <= self.components.len(),
                self@.components.len() == self.components.len(),
                self@.find_group_in_components(counter as int, c as int) is None,
            decreases self.components.len() - c,
        {
            assert(members_model(self.components[c as int].members@)
                == self@.components[c as int].members);
            match find_group(&self.components[c].members, counter) {
                Some(member) => {
                    proof {
                        lemma_found_group_in_components(
                            self@,
                            counter as int,
                            c + 1,
                            self@.components.len() as int,
                        );
                        lemma_find_group(
                            self@.components[c as int].members,
                            counter as int,
                            self@.components[c as int].members.len() as int,
                            self@.fields,
                            self@.components.len() as int,
                        );
                    }
                    return Some(Group { dictionary: self, member });
                },
                None => {},
            }
            c = c + 1;
        }
        let mut m: usize = 0;
        while m < self.messages.len()
            invariant
                m <= self.messages.len(),
                self@.messages.len() == self.messages.len(),
                self@.find_group_in_messages(counter as int, m as int) is None,
            decreases self.messages.len() - m,
        {
            assert(members_model(self.messages[m as int].members@)
                == self@.messages[m as int].members);
            match find_group(&self.messages[m].members, counter) {
                Some(member) => {
                    proof {
                        lemma_found_group_in_messages(
                            self@,
                            counter as int,
                            m + 1,
                            self@.messages.len() as int,
                        );
                        lemma_find_group(
                            self@.messages[m as int].members,
                            counter as int,
                            self@.messages[m as int].members.len() as int,
                            self@.fields,
                            self@.components.len() as int,
                        );
                    }
                    return Some(Group { dictionary: self, member });
                },
                None => {},
            }
            m = m + 1;
        }
        None
    }
}


} // verus!
