//! The loader: from a QuickFIX definition document to a dictionary.
//!
//! The document has the root element `fix` with the sections `header`,
//! `messages`, `trailer`, `components` and `fields`. The fields are read
//! first, so that every reference in a message or component can be resolved
//! while it is read.

use crate::dictionary::{
    BaseType, ComponentDef, ComponentModel, Dictionary, DictionaryModel, EnumModel, EnumValue,
    FieldDef, FieldModel, Member, MemberModel, MessageDef, MessageDefModel, is_framed, member_in_range,
    members_in_range, members_model, lemma_index_of_component, lemma_index_of_name,
    lemma_index_of_tag, HEADER, TRAILER,
};
use crate::error::{SchemaError, SchemaErrorModel};
use crate::text::{number_u32_text, parse_u32_text, str_eq};
use crate::version::Version;
use crate::xml::{
    attribute, element_children, first_named_child, named_children, ordered, parsed_xml, positions,
    NodeModel, XmlDocument,
};
use vstd::prelude::*;
use vstd::utf8::encode_utf8;

verus! {

/// The type that a `type` attribute names: the upper-case spelling of one of
/// the types of the closed set.
pub open spec fn base_type_of(s: Seq<char>) -> Option<BaseType> {
    if s == "STRING"@ {
        Some(BaseType::String)
    } else if s == "CHAR"@ {
        Some(BaseType::Char)
    } else if s == "INT"@ {
        Some(BaseType::Int)
    } else if s == "LENGTH"@ {
        Some(BaseType::Length)
    } else if s == "NUMINGROUP"@ {
        Some(BaseType::NumInGroup)
    } else if s == "SEQNUM"@ {
        Some(BaseType::SeqNum)
    } else if s == "TAGNUM"@ {
        Some(BaseType::TagNum)
    } else if s == "FLOAT"@ {
        Some(BaseType::Float)
    } else if s == "QTY"@ {
        Some(BaseType::Qty)
    } else if s == "PRICE"@ {
        Some(BaseType::Price)
    } else if s == "PRICEOFFSET"@ {
        Some(BaseType::PriceOffset)
    } else if s == "AMT"@ {
        Some(BaseType::Amt)
    } else if s == "PERCENTAGE"@ {
        Some(BaseType::Percentage)
    } else if s == "BOOLEAN"@ {
        Some(BaseType::Boolean)
    } else if s == "MULTIPLECHARVALUE"@ {
        Some(BaseType::MultipleCharValue)
    } else if s == "MULTIPLESTRINGVALUE"@ {
        Some(BaseType::MultipleStringValue)
    } else if s == "COUNTRY"@ {
        Some(BaseType::Country)
    } else if s == "CURRENCY"@ {
        Some(BaseType::Currency)
    } else if s == "EXCHANGE"@ {
        Some(BaseType::Exchange)
    } else if s == "MONTHYEAR"@ {
        Some(BaseType::MonthYear)
    } else if s == "UTCDATE"@ {
        Some(BaseType::UTCDate)
    } else if s == "UTCTIMEONLY"@ {
        Some(BaseType::UTCTimeOnly)
    } else if s == "UTCTIMESTAMP"@ {
        Some(BaseType::UTCTimestamp)
    } else if s == "LOCALMKTDATE"@ {
        Some(BaseType::LocalMktDate)
    } else if s == "TZTIMEONLY"@ {
        Some(BaseType::TZTimeOnly)
    } else if s == "TZTIMESTAMP"@ {
        Some(BaseType::TZTimestamp)
    } else if s == "DATA"@ {
        Some(BaseType::Data)
    } else if s == "XMLDATA"@ {
        Some(BaseType::XMLData)
    } else if s == "LANGUAGE"@ {
        Some(BaseType::Language)
    } else {
        None
    }
}

/// The type that a `type` attribute names.
pub fn parse_base_type(s: &str) -> (r: Option<BaseType>)
    ensures
        r == base_type_of(s@),
{
    if str_eq(s, "STRING") {
        Some(BaseType::String)
    } else if str_eq(s, "CHAR") {
        Some(BaseType::Char)
    } else if str_eq(s, "INT") {
        Some(BaseType::Int)
    } else if str_eq(s, "LENGTH") {
        Some(BaseType::Length)
    } else if str_eq(s, "NUMINGROUP") {
        Some(BaseType::NumInGroup)
    } else if str_eq(s, "SEQNUM") {
        Some(BaseType::SeqNum)
    } else if str_eq(s, "TAGNUM") {
        Some(BaseType::TagNum)
    } else if str_eq(s, "FLOAT") {
        Some(BaseType::Float)
    } else if str_eq(s, "QTY") {
        Some(BaseType::Qty)
    } else if str_eq(s, "PRICE") {
        Some(BaseType::Price)
    } else if str_eq(s, "PRICEOFFSET") {
        Some(BaseType::PriceOffset)
    } else if str_eq(s, "AMT") {
        Some(BaseType::Amt)
    } else if str_eq(s, "PERCENTAGE") {
        Some(BaseType::Percentage)
    } else if str_eq(s, "BOOLEAN") {
        Some(BaseType::Boolean)
    } else if str_eq(s, "MULTIPLECHARVALUE") {
        Some(BaseType::MultipleCharValue)
    } else if str_eq(s, "MULTIPLESTRINGVALUE") {
        Some(BaseType::MultipleStringValue)
    } else if str_eq(s, "COUNTRY") {
        Some(BaseType::Country)
    } else if str_eq(s, "CURRENCY") {
        Some(BaseType::Currency)
    } else if str_eq(s, "EXCHANGE") {
        Some(BaseType::Exchange)
    } else if str_eq(s, "MONTHYEAR") {
        Some(BaseType::MonthYear)
    } else if str_eq(s, "UTCDATE") {
        Some(BaseType::UTCDate)
    } else if str_eq(s, "UTCTIMEONLY") {
        Some(BaseType::UTCTimeOnly)
    } else if str_eq(s, "UTCTIMESTAMP") {
        Some(BaseType::UTCTimestamp)
    } else if str_eq(s, "LOCALMKTDATE") {
        Some(BaseType::LocalMktDate)
    } else if str_eq(s, "TZTIMEONLY") {
        Some(BaseType::TZTimeOnly)
    } else if str_eq(s, "TZTIMESTAMP") {
        Some(BaseType::TZTimestamp)
    } else if str_eq(s, "DATA") {
        Some(BaseType::Data)
    } else if str_eq(s, "XMLDATA") {
        Some(BaseType::XMLData)
    } else if str_eq(s, "LANGUAGE") {
        Some(BaseType::Language)
    } else {
        None
    }
}

/// The version that the attributes of the root element name: `type`
/// (`FIX` where absent), `major`, `minor` and `servicepack` (`0` where
/// absent).
pub open spec fn version_of(node: NodeModel) -> Option<Version> {
    let kind = match attribute(node, "type"@) {
        Some(t) => t,
        None => "FIX"@,
    };
    let sp = match attribute(node, "servicepack"@) {
        Some(t) => t,
        None => "0"@,
    };
    match (attribute(node, "major"@), attribute(node, "minor"@)) {
        (Some(major), Some(minor)) => {
            if kind == "FIX"@ && major == "4"@ && sp == "0"@ {
                if minor == "0"@ {
                    Some(Version::Fix40)
                } else if minor == "1"@ {
                    Some(Version::Fix41)
                } else if minor == "2"@ {
                    Some(Version::Fix42)
                } else if minor == "3"@ {
                    Some(Version::Fix43)
                } else if minor == "4"@ {
                    Some(Version::Fix44)
                } else {
                    None
                }
            } else if kind == "FIX"@ && major == "5"@ && minor == "0"@ {
                if sp == "0"@ {
                    Some(Version::Fix50)
                } else if sp == "1"@ {
                    Some(Version::Fix50SP1)
                } else if sp == "2"@ {
                    Some(Version::Fix50SP2)
                } else {
                    None
                }
            } else if kind == "FIXT"@ && major == "1"@ && minor == "1"@ && sp == "0"@ {
                Some(Version::Fixt11)
            } else {
                None
            }
        },
        _ => None,
    }
}

/// A dictionary model that holds the fields `fields` and nothing else.
pub open spec fn only_fields(fields: Seq<FieldModel>) -> DictionaryModel {
    DictionaryModel {
        version: Version::Fix40,
        fields,
        components: Seq::empty(),
        messages: Seq::empty(),
    }
}

/// The enumerated value that a `value` element defines.
pub open spec fn enum_of(node: NodeModel) -> Result<EnumModel, SchemaErrorModel> {
    match attribute(node, "enum"@) {
        None => Err(SchemaErrorModel::MissingAttribute("enum"@)),
        Some(code) => Ok(
            EnumModel {
                code,
                description: match attribute(node, "description"@) {
                    Some(d) => d,
                    None => Seq::empty(),
                },
            },
        ),
    }
}

/// The enumerated values that the first `k` of `nodes` define.
pub open spec fn enums_upto(doc: Seq<NodeModel>, nodes: Seq<int>, k: int) -> Result<
    Seq<EnumModel>,
    SchemaErrorModel,
>
    decreases k,
{
    if k <= 0 || k > nodes.len() {
        Ok(Seq::empty())
    } else {
        match enums_upto(doc, nodes, k - 1) {
            Err(e) => Err(e),
            Ok(list) => match enum_of(doc[nodes[k - 1]]) {
                Err(e) => Err(e),
                Ok(v) => Ok(list.push(v)),
            },
        }
    }
}

/// The field that the `field` element at `j` defines: `number`, `name` and
/// `type` are required, and each `value` child is an enumerated value.
pub open spec fn field_of(doc: Seq<NodeModel>, j: int) -> Result<FieldModel, SchemaErrorModel> {
    match attribute(doc[j], "number"@) {
        None => Err(SchemaErrorModel::MissingAttribute("number"@)),
        Some(number) => match number_u32_text(encode_utf8(number)) {
            None => Err(SchemaErrorModel::MissingAttribute("number"@)),
            Some(tag) => match attribute(doc[j], "name"@) {
                None => Err(SchemaErrorModel::MissingAttribute("name"@)),
                Some(name) => match attribute(doc[j], "type"@) {
                    None => Err(SchemaErrorModel::MissingAttribute("type"@)),
                    Some(ty) => match base_type_of(ty) {
                        None => Err(SchemaErrorModel::UnknownType(ty)),
                        Some(base_type) => {
                            let values = named_children(doc, j, "value"@);
                            match enums_upto(doc, values, values.len() as int) {
                                Err(e) => Err(e),
                                Ok(enums) => Ok(FieldModel { tag, name, base_type, enums }),
                            }
                        },
                    },
                },
            },
        },
    }
}

/// The fields that the first `k` of `nodes` define. A field whose tag or
/// name was defined before is an error.
pub open spec fn fields_upto(doc: Seq<NodeModel>, nodes: Seq<int>, k: int) -> Result<
    Seq<FieldModel>,
    SchemaErrorModel,
>
    decreases k,
{
    if k <= 0 || k > nodes.len() {
        Ok(Seq::empty())
    } else {
        match fields_upto(doc, nodes, k - 1) {
            Err(e) => Err(e),
            Ok(list) => match field_of(doc, nodes[k - 1]) {
                Err(e) => Err(e),
                Ok(f) => if only_fields(list).index_of_tag(f.tag) is Some {
                    Err(SchemaErrorModel::DuplicateTag(f.tag))
                } else if only_fields(list).index_of_name(f.name) is Some {
                    Err(SchemaErrorModel::DuplicateName(f.name))
                } else {
                    Ok(list.push(f))
                },
            },
        }
    }
}

/// The first position below `k` at which `names` holds `name`.
pub open spec fn name_position_upto(names: Seq<Seq<char>>, name: Seq<char>, k: int) -> Option<int>
    decreases k,
{
    if k <= 0 || k > names.len() {
        None
    } else if name_position_upto(names, name, k - 1) is Some {
        name_position_upto(names, name, k - 1)
    } else if names[k - 1] == name {
        Some(k - 1)
    } else {
        None
    }
}

/// The first position at which `names` holds `name`.
pub open spec fn name_position(names: Seq<Seq<char>>, name: Seq<char>) -> Option<int> {
    name_position_upto(names, name, names.len() as int)
}

/// The names of the components: the standard header, the standard trailer,
/// then the `name` of each of the first `k` of `nodes`.
pub open spec fn component_names_upto(doc: Seq<NodeModel>, nodes: Seq<int>, k: int) -> Result<
    Seq<Seq<char>>,
    SchemaErrorModel,
>
    decreases k,
{
    if k <= 0 || k > nodes.len() {
        Ok(seq!["StandardHeader"@, "StandardTrailer"@])
    } else {
        match component_names_upto(doc, nodes, k - 1) {
            Err(e) => Err(e),
            Ok(list) => match attribute(doc[nodes[k - 1]], "name"@) {
                None => Err(SchemaErrorModel::MissingAttribute("name"@)),
                Some(name) => Ok(list.push(name)),
            },
        }
    }
}

/// Whether a member is marked as required.
pub open spec fn required_of(node: NodeModel) -> bool {
    attribute(node, "required"@) == Some("Y"@)
}

/// The tag that opens each entry of a group with the members `members`: the
/// tag of the first member, where that is a field or a group.
pub open spec fn delimiter_of(fields: Seq<FieldModel>, members: Seq<MemberModel>) -> Option<u32> {
    if members.len() == 0 {
        None
    } else {
        match members[0] {
            MemberModel::Field { field, .. } => if 0 <= field < fields.len() {
                Some(fields[field].tag)
            } else {
                None
            },
            MemberModel::Group { counter, .. } => if 0 <= counter < fields.len() {
                Some(fields[counter].tag)
            } else {
                None
            },
            MemberModel::Component { .. } => None,
        }
    }
}

/// The member that the element at `j` defines: a `field` or a `component`
/// by its `name`, or a `group` whose `name` is that of its counter field, a
/// field of type `NumInGroup`.
pub open spec fn member_of(
    doc: Seq<NodeModel>,
    fields: Seq<FieldModel>,
    names: Seq<Seq<char>>,
    j: int,
) -> Result<MemberModel, SchemaErrorModel>
    decreases doc.len() - j, 1int, 0int,
{
    let node = doc[j];
    let required = required_of(node);
    if node.name == "field"@ {
        match attribute(node, "name"@) {
            None => Err(SchemaErrorModel::MissingAttribute("name"@)),
            Some(name) => match only_fields(fields).index_of_name(name) {
                None => Err(SchemaErrorModel::UnknownReference(name)),
                Some(field) => Ok(MemberModel::Field { field, required }),
            },
        }
    } else if node.name == "component"@ {
        match attribute(node, "name"@) {
            None => Err(SchemaErrorModel::MissingAttribute("name"@)),
            Some(name) => match name_position(names, name) {
                None => Err(SchemaErrorModel::UnknownReference(name)),
                Some(component) => Ok(MemberModel::Component { component, required }),
            },
        }
    } else if node.name == "group"@ {
        match attribute(node, "name"@) {
            None => Err(SchemaErrorModel::MissingAttribute("name"@)),
            Some(name) => match only_fields(fields).index_of_name(name) {
                None => Err(SchemaErrorModel::UnknownReference(name)),
                Some(counter) => if !(0 <= counter < fields.len()) || fields[counter].base_type
                    != BaseType::NumInGroup {
                    Err(SchemaErrorModel::UnknownReference(name))
                } else {
                    let children = element_children(doc, j);
                    match members_upto(doc, fields, names, j, children, children.len() as int) {
                        Err(e) => Err(e),
                        Ok(members) => match delimiter_of(fields, members) {
                            None => Err(SchemaErrorModel::UnknownReference(name)),
                            Some(delimiter) => Ok(
                                MemberModel::Group { counter, delimiter, required, members },
                            ),
                        },
                    }
                },
            },
        }
    } else {
        Err(SchemaErrorModel::BadXml)
    }
}

/// The members that the first `k` of the children of `parent` define.
pub open spec fn members_upto(
    doc: Seq<NodeModel>,
    fields: Seq<FieldModel>,
    names: Seq<Seq<char>>,
    parent: int,
    children: Seq<int>,
    k: int,
) -> Result<Seq<MemberModel>, SchemaErrorModel>
    decreases doc.len() - parent, 0int, k,
{
    if k <= 0 || k > children.len() {
        Ok(Seq::empty())
    } else {
        match members_upto(doc, fields, names, parent, children, k - 1) {
            Err(e) => Err(e),
            Ok(list) => if !(parent < children[k - 1] < doc.len()) {
                Err(SchemaErrorModel::BadXml)
            } else {
                match member_of(doc, fields, names, children[k - 1]) {
                    Err(e) => Err(e),
                    Ok(m) => Ok(list.push(m)),
                }
            },
        }
    }
}

/// The members that the element children of `parent` define.
pub open spec fn members_of(
    doc: Seq<NodeModel>,
    fields: Seq<FieldModel>,
    names: Seq<Seq<char>>,
    parent: int,
) -> Result<Seq<MemberModel>, SchemaErrorModel> {
    members_upto(
        doc,
        fields,
        names,
        parent,
        element_children(doc, parent),
        element_children(doc, parent).len() as int,
    )
}

/// The members of the section `section` below `root`; none where the
/// section is absent.
pub open spec fn section_members(
    doc: Seq<NodeModel>,
    fields: Seq<FieldModel>,
    names: Seq<Seq<char>>,
    root: int,
    section: Seq<char>,
) -> Result<Seq<MemberModel>, SchemaErrorModel> {
    match first_named_child(doc, root, section) {
        Some(s) => members_of(doc, fields, names, s),
        None => Ok(Seq::empty()),
    }
}

/// The elements called `child` in the section `section` below `root`.
pub open spec fn section_children(
    doc: Seq<NodeModel>,
    root: int,
    section: Seq<char>,
    child: Seq<char>,
) -> Seq<int> {
    match first_named_child(doc, root, section) {
        Some(s) => named_children(doc, s, child),
        None => Seq::empty(),
    }
}

/// The components that the first `k` of `nodes` define.
pub open spec fn components_upto(
    doc: Seq<NodeModel>,
    fields: Seq<FieldModel>,
    names: Seq<Seq<char>>,
    nodes: Seq<int>,
    k: int,
) -> Result<Seq<ComponentModel>, SchemaErrorModel>
    decreases k,
{
    if k <= 0 || k > nodes.len() {
        Ok(Seq::empty())
    } else {
        match components_upto(doc, fields, names, nodes, k - 1) {
            Err(e) => Err(e),
            Ok(list) => match attribute(doc[nodes[k - 1]], "name"@) {
                None => Err(SchemaErrorModel::MissingAttribute("name"@)),
                Some(name) => match members_of(doc, fields, names, nodes[k - 1]) {
                    Err(e) => Err(e),
                    Ok(members) => Ok(list.push(ComponentModel { name, members })),
                },
            },
        }
    }
}

/// The members of a message: the standard header, the members of its own,
/// the standard trailer.
pub open spec fn framed(members: Seq<MemberModel>) -> Seq<MemberModel> {
    seq![MemberModel::Component { component: 0, required: true }] + members + seq![
        MemberModel::Component { component: 1, required: true },
    ]
}

/// The messages that the first `k` of `nodes` define: `name` and `msgtype`
/// are required.
pub open spec fn messages_upto(
    doc: Seq<NodeModel>,
    fields: Seq<FieldModel>,
    names: Seq<Seq<char>>,
    nodes: Seq<int>,
    k: int,
) -> Result<Seq<MessageDefModel>, SchemaErrorModel>
    decreases k,
{
    if k <= 0 || k > nodes.len() {
        Ok(Seq::empty())
    } else {
        match messages_upto(doc, fields, names, nodes, k - 1) {
            Err(e) => Err(e),
            Ok(list) => match attribute(doc[nodes[k - 1]], "name"@) {
                None => Err(SchemaErrorModel::MissingAttribute("name"@)),
                Some(name) => match attribute(doc[nodes[k - 1]], "msgtype"@) {
                    None => Err(SchemaErrorModel::MissingAttribute("msgtype"@)),
                    Some(msg_type) => match members_of(doc, fields, names, nodes[k - 1]) {
                        Err(e) => Err(e),
                        Ok(members) => Ok(
                            list.push(MessageDefModel { msg_type, name, members: framed(members) }),
                        ),
                    },
                },
            },
        }
    }
}

/// The dictionary that a definition document stands for, or the first error
/// in it: the fields come first, then the names of the components, the
/// header, the trailer, the components and the messages.
pub open spec fn dictionary_of(doc: Seq<NodeModel>) -> Result<DictionaryModel, SchemaErrorModel> {
    if doc.len() == 0 || element_children(doc, 0).len() == 0 {
        Err(SchemaErrorModel::BadXml)
    } else {
        let root = element_children(doc, 0)[0];
        if doc[root].name != "fix"@ {
            Err(SchemaErrorModel::BadXml)
        } else {
            match version_of(doc[root]) {
                None => Err(SchemaErrorModel::BadXml),
                Some(version) => {
                    let field_nodes = section_children(doc, root, "fields"@, "field"@);
                    let component_nodes = section_children(doc, root, "components"@, "component"@);
                    let message_nodes = section_children(doc, root, "messages"@, "message"@);
                    match fields_upto(doc, field_nodes, field_nodes.len() as int) {
                        Err(e) => Err(e),
                        Ok(fields) => match component_names_upto(
                            doc,
                            component_nodes,
                            component_nodes.len() as int,
                        ) {
                            Err(e) => Err(e),
                            Ok(names) => match section_members(doc, fields, names, root, "header"@) {
                                Err(e) => Err(e),
                                Ok(header) => match section_members(
                                    doc,
                                    fields,
                                    names,
                                    root,
                                    "trailer"@,
                                ) {
                                    Err(e) => Err(e),
                                    Ok(trailer) => match components_upto(
                                        doc,
                                        fields,
                                        names,
                                        component_nodes,
                                        component_nodes.len() as int,
                                    ) {
                                        Err(e) => Err(e),
                                        Ok(components) => match messages_upto(
                                            doc,
                                            fields,
                                            names,
                                            message_nodes,
                                            message_nodes.len() as int,
                                        ) {
                                            Err(e) => Err(e),
                                            Ok(messages) => Ok(
                                                DictionaryModel {
                                                    version,
                                                    fields,
                                                    components: seq![
                                                        ComponentModel {
                                                            name: "StandardHeader"@,
                                                            members: header,
                                                        },
                                                        ComponentModel {
                                                            name: "StandardTrailer"@,
                                                            members: trailer,
                                                        },
                                                    ] + components,
                                                    messages,
                                                },
                                            ),
                                        },
                                    },
                                },
                            },
                        },
                    }
                },
            }
        }
    }
}

/// The dictionary that the text of a definition file stands for, given what
/// the XML parser made of the text.
pub open spec fn dictionary_of_text(parsed: Option<Seq<NodeModel>>) -> Result<
    DictionaryModel,
    SchemaErrorModel,
> {
    match parsed {
        None => Err(SchemaErrorModel::BadXml),
        Some(doc) => if ordered(doc) {
            dictionary_of(doc)
        } else {
            Err(SchemaErrorModel::BadXml)
        },
    }
}

/// The dictionary that is bundled for `version`: what the bundled text
/// stands for, as long as it describes that version and defines a field and
/// a message.
pub open spec fn bundled_dictionary(version: Version) -> Result<DictionaryModel, SchemaErrorModel> {
    match dictionary_of_text(parsed_xml(version.quickfix_text())) {
        Ok(d) => if d.version == version && d.fields.len() > 0 && d.messages.len() > 0 {
            Ok(d)
        } else {
            Err(SchemaErrorModel::BadXml)
        },
        Err(e) => Err(e),
    }
}

/// A bundled dictionary is well formed and not empty: it defines a field and
/// a message, and its header and its trailer are found by their names. The
/// bundled dictionaries of different versions differ.
pub proof fn law_bundled_dictionaries_differ(a: Version, b: Version)
    requires
        bundled_dictionary(a) is Ok,
        bundled_dictionary(b) is Ok,
    ensures
        bundled_dictionary(a)->Ok_0.wf(),
        bundled_dictionary(a)->Ok_0.version == a,
        bundled_dictionary(a)->Ok_0.fields.len() > 0,
        bundled_dictionary(a)->Ok_0.messages.len() > 0,
        bundled_dictionary(a)->Ok_0.index_of_component("StandardHeader"@) == Some(HEADER as int),
        bundled_dictionary(a)->Ok_0.index_of_component("StandardTrailer"@) is Some,
        a != b ==> bundled_dictionary(a)->Ok_0 != bundled_dictionary(b)->Ok_0,
{
    let d = bundled_dictionary(a)->Ok_0;
    let doc = parsed_xml(a.quickfix_text())->Some_0;
    assert(dictionary_of(doc) == Ok::<_, SchemaErrorModel>(d));
    lemma_dictionary_of_wf(doc);
    lemma_index_of_component(d, "StandardHeader"@, d.components.len() as int);
    lemma_index_of_component(d, "StandardTrailer"@, d.components.len() as int);
    assert(d.components[HEADER as int].name == "StandardHeader"@);
    assert(d.components[TRAILER as int].name == "StandardTrailer"@);
}

/// The models of a list of fields.
pub open spec fn fields_view(fields: Seq<FieldDef>) -> Seq<FieldModel> {
    fields.map_values(|f: FieldDef| f@)
}

/// The models of a list of names.
pub open spec fn names_view(names: Seq<String>) -> Seq<Seq<char>> {
    names.map_values(|s: String| s@)
}

/// The models of a list of enumerated values.
pub open spec fn enums_view(values: Seq<EnumValue>) -> Seq<EnumModel> {
    values.map_values(|e: EnumValue| e@)
}

/// The models of a list of components.
pub open spec fn components_view(components: Seq<ComponentDef>) -> Seq<ComponentModel> {
    components.map_values(|c: ComponentDef| c@)
}

/// The models of a list of messages.
pub open spec fn messages_view(messages: Seq<MessageDef>) -> Seq<MessageDefModel> {
    messages.map_values(|m: MessageDef| m@)
}

/// Once a step of a fold fails, the fold fails with the same error.
pub proof fn lemma_enums_error(doc: Seq<NodeModel>, nodes: Seq<int>, k: int, n: int)
    requires
        0 <= k <= n <= nodes.len(),
        enums_upto(doc, nodes, k) is Err,
    ensures
        enums_upto(doc, nodes, n) == enums_upto(doc, nodes, k),
    decreases n - k,
{
    if k < n {
        lemma_enums_error(doc, nodes, k, n - 1);
    }
}

/// Once a field fails, the list of fields fails with the same error.
pub proof fn lemma_fields_error(doc: Seq<NodeModel>, nodes: Seq<int>, k: int, n: int)
    requires
        0 <= k <= n <= nodes.len(),
        fields_upto(doc, nodes, k) is Err,
    ensures
        fields_upto(doc, nodes, n) == fields_upto(doc, nodes, k),
    decreases n - k,
{
    if k < n {
        lemma_fields_error(doc, nodes, k, n - 1);
    }
}

/// Once a name fails, the list of names fails with the same error.
pub proof fn lemma_names_error(doc: Seq<NodeModel>, nodes: Seq<int>, k: int, n: int)
    requires
        0 <= k <= n <= nodes.len(),
        component_names_upto(doc, nodes, k) is Err,
    ensures
        component_names_upto(doc, nodes, n) == component_names_upto(doc, nodes, k),
    decreases n - k,
{
    if k < n {
        lemma_names_error(doc, nodes, k, n - 1);
    }
}

/// Once a member fails, the list of members fails with the same error.
pub proof fn lemma_members_error(
    doc: Seq<NodeModel>,
    fields: Seq<FieldModel>,
    names: Seq<Seq<char>>,
    parent: int,
    children: Seq<int>,
    k: int,
    n: int,
)
    requires
        0 <= k <= n <= children.len(),
        members_upto(doc, fields, names, parent, children, k) is Err,
    ensures
        members_upto(doc, fields, names, parent, children, n) == members_upto(
            doc,
            fields,
            names,
            parent,
            children,
            k,
        ),
    decreases n - k,
{
    if k < n {
        lemma_members_error(doc, fields, names, parent, children, k, n - 1);
    }
}

/// Once a component fails, the list of components fails with the same error.
pub proof fn lemma_components_error(
    doc: Seq<NodeModel>,
    fields: Seq<FieldModel>,
    names: Seq<Seq<char>>,
    nodes: Seq<int>,
    k: int,
    n: int,
)
    requires
        0 <= k <= n <= nodes.len(),
        components_upto(doc, fields, names, nodes, k) is Err,
    ensures
        components_upto(doc, fields, names, nodes, n) == components_upto(
            doc,
            fields,
            names,
            nodes,
            k,
        ),
    decreases n - k,
{
    if k < n {
        lemma_components_error(doc, fields, names, nodes, k, n - 1);
    }
}

/// Once a message fails, the list of messages fails with the same error.
pub proof fn lemma_messages_error(
    doc: Seq<NodeModel>,
    fields: Seq<FieldModel>,
    names: Seq<Seq<char>>,
    nodes: Seq<int>,
    k: int,
    n: int,
)
    requires
        0 <= k <= n <= nodes.len(),
        messages_upto(doc, fields, names, nodes, k) is Err,
    ensures
        messages_upto(doc, fields, names, nodes, n) == messages_upto(doc, fields, names, nodes, k),
    decreases n - k,
{
    if k < n {
        lemma_messages_error(doc, fields, names, nodes, k, n - 1);
    }
}

/// What `name_position_upto` finds is the first position with the name.
pub proof fn lemma_name_position(names: Seq<Seq<char>>, name: Seq<char>, k: int)
    requires
        0 <= k <= names.len(),
    ensures
        match name_position_upto(names, name, k) {
            Some(i) => 0 <= i < k && names[i] == name && forall|j: int|
                0 <= j < i ==> #[trigger] names[j] != name,
            None => forall|j: int| 0 <= j < k ==> #[trigger] names[j] != name,
        },
    decreases k,
{
    if k > 0 {
        lemma_name_position(names, name, k - 1);
    }
}

/// The fields that the loader accepts have tags and names of their own.
pub proof fn lemma_fields_unique(doc: Seq<NodeModel>, nodes: Seq<int>, k: int)
    requires
        fields_upto(doc, nodes, k) is Ok,
    ensures
        ({
            let fields = fields_upto(doc, nodes, k)->Ok_0;
            &&& forall|i: int, j: int|
                0 <= i < j < fields.len() ==> (#[trigger] fields[i]).tag != (#[trigger] fields[j]).tag
            &&& forall|i: int, j: int|
                0 <= i < j < fields.len() ==> (#[trigger] fields[i]).name != (
                #[trigger] fields[j]).name
        }),
    decreases k,
{
    if 0 < k <= nodes.len() {
        lemma_fields_unique(doc, nodes, k - 1);
        let list = fields_upto(doc, nodes, k - 1)->Ok_0;
        let f = field_of(doc, nodes[k - 1])->Ok_0;
        lemma_index_of_tag(only_fields(list), f.tag, list.len() as int);
        lemma_index_of_name(only_fields(list), f.name, list.len() as int);
        let fields = list.push(f);
        assert forall|i: int, j: int| 0 <= i < j < fields.len() implies (#[trigger] fields[i]).tag
            != (#[trigger] fields[j]).tag by {
            if j < list.len() {
                assert(fields[i] == list[i] && fields[j] == list[j]);
            } else {
                assert(fields[i] == list[i]);
            }
        }
        assert forall|i: int, j: int| 0 <= i < j < fields.len() implies (#[trigger] fields[i]).name
            != (#[trigger] fields[j]).name by {
            if j < list.len() {
                assert(fields[i] == list[i] && fields[j] == list[j]);
            } else {
                assert(fields[i] == list[i]);
            }
        }
    }
}

/// There are two more component names than component elements.
pub proof fn lemma_names_len(doc: Seq<NodeModel>, nodes: Seq<int>, k: int)
    requires
        0 <= k <= nodes.len(),
        component_names_upto(doc, nodes, k) is Ok,
    ensures
        component_names_upto(doc, nodes, k)->Ok_0.len() == k + 2,
    decreases k,
{
    if k > 0 {
        lemma_names_len(doc, nodes, k - 1);
    }
}

/// A member that the loader accepts names existing fields and components.
pub proof fn lemma_member_in_range(
    doc: Seq<NodeModel>,
    fields: Seq<FieldModel>,
    names: Seq<Seq<char>>,
    j: int,
)
    requires
        member_of(doc, fields, names, j) is Ok,
    ensures
        member_in_range(member_of(doc, fields, names, j)->Ok_0, fields, names.len() as int),
    decreases doc.len() - j, 1int, 0int,
{
    let node = doc[j];
    if node.name == "field"@ {
        let name = attribute(node, "name"@)->Some_0;
        lemma_index_of_name(only_fields(fields), name, fields.len() as int);
    } else if node.name == "component"@ {
        let name = attribute(node, "name"@)->Some_0;
        lemma_name_position(names, name, names.len() as int);
    } else if node.name == "group"@ {
        let name = attribute(node, "name"@)->Some_0;
        lemma_index_of_name(only_fields(fields), name, fields.len() as int);
        let children = element_children(doc, j);
        lemma_members_in_range(doc, fields, names, j, children, children.len() as int);
    }
}

/// The members that the loader accepts name existing fields and components.
pub proof fn lemma_members_in_range(
    doc: Seq<NodeModel>,
    fields: Seq<FieldModel>,
    names: Seq<Seq<char>>,
    parent: int,
    children: Seq<int>,
    k: int,
)
    requires
        members_upto(doc, fields, names, parent, children, k) is Ok,
    ensures
        members_in_range(
            members_upto(doc, fields, names, parent, children, k)->Ok_0,
            fields,
            names.len() as int,
        ),
    decreases doc.len() - parent, 0int, k,
{
    if 0 < k <= children.len() {
        lemma_members_in_range(doc, fields, names, parent, children, k - 1);
        lemma_member_in_range(doc, fields, names, children[k - 1]);
        let list = members_upto(doc, fields, names, parent, children, k - 1)->Ok_0;
        let m = member_of(doc, fields, names, children[k - 1])->Ok_0;
        let all = list.push(m);
        assert forall|i: int| 0 <= i < all.len() implies member_in_range(
            #[trigger] all[i],
            fields,
            names.len() as int,
        ) by {
            if i < list.len() {
                assert(all[i] == list[i]);
            }
        }
    }
}

/// The components that the loader accepts are as many as their elements and
/// name existing fields and components.
pub proof fn lemma_components_in_range(
    doc: Seq<NodeModel>,
    fields: Seq<FieldModel>,
    names: Seq<Seq<char>>,
    nodes: Seq<int>,
    k: int,
)
    requires
        0 <= k <= nodes.len(),
        components_upto(doc, fields, names, nodes, k) is Ok,
    ensures
        components_upto(doc, fields, names, nodes, k)->Ok_0.len() == k,
        forall|c: int|
            0 <= c < k ==> members_in_range(
                (#[trigger] components_upto(doc, fields, names, nodes, k)->Ok_0[c]).members,
                fields,
                names.len() as int,
            ),
    decreases k,
{
    if k > 0 {
        lemma_components_in_range(doc, fields, names, nodes, k - 1);
        let list = components_upto(doc, fields, names, nodes, k - 1)->Ok_0;
        let children = element_children(doc, nodes[k - 1]);
        lemma_members_in_range(doc, fields, names, nodes[k - 1], children, children.len() as int);
        let all = components_upto(doc, fields, names, nodes, k)->Ok_0;
        assert forall|c: int| 0 <= c < k implies members_in_range(
            (#[trigger] all[c]).members,
            fields,
            names.len() as int,
        ) by {
            if c < k - 1 {
                assert(all[c] == list[c]);
            }
        }
    }
}

/// The messages that the loader accepts name existing fields and components.
pub proof fn lemma_messages_in_range(
    doc: Seq<NodeModel>,
    fields: Seq<FieldModel>,
    names: Seq<Seq<char>>,
    nodes: Seq<int>,
    k: int,
)
    requires
        0 <= k <= nodes.len(),
        names.len() >= 2,
        messages_upto(doc, fields, names, nodes, k) is Ok,
    ensures
        messages_upto(doc, fields, names, nodes, k)->Ok_0.len() == k,
        forall|c: int|
            0 <= c < k ==> members_in_range(
                (#[trigger] messages_upto(doc, fields, names, nodes, k)->Ok_0[c]).members,
                fields,
                names.len() as int,
            ) && is_framed(messages_upto(doc, fields, names, nodes, k)->Ok_0[c].members),
    decreases k,
{
    if k > 0 {
        lemma_messages_in_range(doc, fields, names, nodes, k - 1);
        let list = messages_upto(doc, fields, names, nodes, k - 1)->Ok_0;
        let children = element_children(doc, nodes[k - 1]);
        lemma_members_in_range(doc, fields, names, nodes[k - 1], children, children.len() as int);
        let members = members_of(doc, fields, names, nodes[k - 1])->Ok_0;
        let all = messages_upto(doc, fields, names, nodes, k)->Ok_0;
        assert forall|i: int| 0 <= i < framed(members).len() implies member_in_range(
            #[trigger] framed(members)[i],
            fields,
            names.len() as int,
        ) by {
            if 0 < i <= members.len() {
                assert(framed(members)[i] == members[i - 1]);
            }
        }
        assert forall|c: int| 0 <= c < k implies members_in_range(
            (#[trigger] all[c]).members,
            fields,
            names.len() as int,
        ) && is_framed(all[c].members) by {
            if c < k - 1 {
                assert(all[c] == list[c]);
            } else {
                assert(all[c].members == framed(members));
                assert(framed(members)[0] == MemberModel::Component {
                    component: 0,
                    required: true,
                });
                assert(framed(members)[framed(members).len() - 1] == MemberModel::Component {
                    component: 1,
                    required: true,
                });
            }
        }
    }
}

/// Every dictionary that the loader accepts is well-formed.
pub proof fn lemma_dictionary_of_wf(doc: Seq<NodeModel>)
    requires
        dictionary_of(doc) is Ok,
    ensures
        dictionary_of(doc)->Ok_0.wf(),
{
    let root = element_children(doc, 0)[0];
    let field_nodes = section_children(doc, root, "fields"@, "field"@);
    let component_nodes = section_children(doc, root, "components"@, "component"@);
    let message_nodes = section_children(doc, root, "messages"@, "message"@);
    let fields = fields_upto(doc, field_nodes, field_nodes.len() as int)->Ok_0;
    let names = component_names_upto(doc, component_nodes, component_nodes.len() as int)->Ok_0;
    lemma_fields_unique(doc, field_nodes, field_nodes.len() as int);
    lemma_names_len(doc, component_nodes, component_nodes.len() as int);
    let header = section_members(doc, fields, names, root, "header"@)->Ok_0;
    let trailer = section_members(doc, fields, names, root, "trailer"@)->Ok_0;
    match first_named_child(doc, root, "header"@) {
        Some(s) => {
            lemma_members_in_range(
                doc,
                fields,
                names,
                s,
                element_children(doc, s),
                element_children(doc, s).len() as int,
            );
        },
        None => {},
    }
    match first_named_child(doc, root, "trailer"@) {
        Some(s) => {
            lemma_members_in_range(
                doc,
                fields,
                names,
                s,
                element_children(doc, s),
                element_children(doc, s).len() as int,
            );
        },
        None => {},
    }
    lemma_components_in_range(doc, fields, names, component_nodes, component_nodes.len() as int);
    lemma_messages_in_range(doc, fields, names, message_nodes, message_nodes.len() as int);
    let d = dictionary_of(doc)->Ok_0;
    let components = components_upto(
        doc,
        fields,
        names,
        component_nodes,
        component_nodes.len() as int,
    )->Ok_0;
    assert(d.components.len() == names.len());
    assert forall|c: int| 0 <= c < d.components.len() implies members_in_range(
        (#[trigger] d.components[c]).members,
        d.fields,
        d.components.len() as int,
    ) by {
        if c >= 2 {
            assert(d.components[c] == components[c - 2]);
        }
    }
}

/// The position of the field called `name` among `fields`.
pub fn find_field_by_name(fields: &Vec<FieldDef>, name: &str) -> (r: Option<usize>)
    ensures
        match r {
            Some(i) => only_fields(fields_view(fields@)).index_of_name(name@) == Some(i as int) && i
                < fields.len(),
            None => only_fields(fields_view(fields@)).index_of_name(name@) is None,
        },
{
    let ghost d = only_fields(fields_view(fields@));
    let mut i: usize = 0;
    while i < fields.len()
        invariant
            i <= fields.len(),
            d == only_fields(fields_view(fields@)),
            d.index_of_name_upto(name@, i as int) is None,
        decreases fields.len() - i,
    {
        if str_eq(fields[i].name.as_str(), name) {
            proof {
                assert(d.index_of_name_upto(name@, i + 1) == Some(i as int));
                lemma_index_of_name(d, name@, i + 1);
                lemma_index_of_name(d, name@, d.fields.len() as int);
            }
            return Some(i);
        }
        i = i + 1;
    }
    None
}

/// The position of the field with tag `tag` among `fields`.
pub fn find_field_by_tag(fields: &Vec<FieldDef>, tag: u32) -> (r: Option<usize>)
    ensures
        match r {
            Some(i) => only_fields(fields_view(fields@)).index_of_tag(tag) == Some(i as int) && i
                < fields.len(),
            None => only_fields(fields_view(fields@)).index_of_tag(tag) is None,
        },
{
    let ghost d = only_fields(fields_view(fields@));
    let mut i: usize = 0;
    while i < fields.len()
        invariant
            i <= fields.len(),
            d == only_fields(fields_view(fields@)),
            d.index_of_tag_upto(tag, i as int) is None,
        decreases fields.len() - i,
    {
        if fields[i].tag == tag {
            proof {
                assert(d.index_of_tag_upto(tag, i + 1) == Some(i as int));
                lemma_index_of_tag(d, tag, i + 1);
                lemma_index_of_tag(d, tag, d.fields.len() as int);
            }
            return Some(i);
        }
        i = i + 1;
    }
    None
}

/// The first position of `name` among `names`.
pub fn find_name(names: &Vec<String>, name: &str) -> (r: Option<usize>)
    ensures
        match r {
            Some(i) => name_position(names_view(names@), name@) == Some(i as int) && i < names.len(),
            None => name_position(names_view(names@), name@) is None,
        },
{
    let ghost ns = names_view(names@);
    let mut i: usize = 0;
    while i < names.len()
        invariant
            i <= names.len(),
            ns == names_view(names@),
            name_position_upto(ns, name@, i as int) is None,
        decreases names.len() - i,
    {
        if str_eq(names[i].as_str(), name) {
            proof {
                assert(name_position_upto(ns, name@, i + 1) == Some(i as int));
                lemma_name_position(ns, name@, i + 1);
                lemma_name_position(ns, name@, ns.len() as int);
            }
            return Some(i);
        }
        i = i + 1;
    }
    None
}

/// The version that the root element names.
pub fn parse_version(doc: &XmlDocument, root: usize) -> (r: Option<Version>)
    requires
        root < doc@.len(),
    ensures
        r == version_of(doc@[root as int]),
{
    let kind = match doc.attribute(root, "type") {
        Some(t) => t,
        None => "FIX",
    };
    let sp = match doc.attribute(root, "servicepack") {
        Some(t) => t,
        None => "0",
    };
    let major = match doc.attribute(root, "major") {
        Some(t) => t,
        None => {
            return None;
        },
    };
    let minor = match doc.attribute(root, "minor") {
        Some(t) => t,
        None => {
            return None;
        },
    };
    if str_eq(kind, "FIX") && str_eq(major, "4") && str_eq(sp, "0") {
        if str_eq(minor, "0") {
            Some(Version::Fix40)
        } else if str_eq(minor, "1") {
            Some(Version::Fix41)
        } else if str_eq(minor, "2") {
            Some(Version::Fix42)
        } else if str_eq(minor, "3") {
            Some(Version::Fix43)
        } else if str_eq(minor, "4") {
            Some(Version::Fix44)
        } else {
            None
        }
    } else if str_eq(kind, "FIX") && str_eq(major, "5") && str_eq(minor, "0") {
        if str_eq(sp, "0") {
            Some(Version::Fix50)
        } else if str_eq(sp, "1") {
            Some(Version::Fix50SP1)
        } else if str_eq(sp, "2") {
            Some(Version::Fix50SP2)
        } else {
            None
        }
    } else if str_eq(kind, "FIXT") && str_eq(major, "1") && str_eq(minor, "1") && str_eq(sp, "0") {
        Some(Version::Fixt11)
    } else {
        None
    }
}

/// Reads the enumerated values of a field.
#[verifier::loop_isolation(false)]
fn load_enums(doc: &XmlDocument, nodes: &Vec<usize>) -> (r: Result<Vec<EnumValue>, SchemaError>)
    requires
        forall|n: int| 0 <= n < nodes@.len() ==> (#[trigger] nodes@[n]) < doc@.len(),
    ensures
        match r {
            Ok(v) => enums_upto(doc@, positions(nodes@), nodes.len() as int) == Ok::<
                _,
                SchemaErrorModel,
            >(enums_view(v@)),
            Err(e) => enums_upto(doc@, positions(nodes@), nodes.len() as int) == Err::<
                Seq<EnumModel>,
                _,
            >(e@),
        },
{
    let mut out: Vec<EnumValue> = Vec::new();
    assert(enums_view(out@) =~= Seq::empty());
    let mut k: usize = 0;
    while k < nodes.len()
        invariant
            k <= nodes.len(),
            enums_upto(doc@, positions(nodes@), k as int) == Ok::<_, SchemaErrorModel>(
                enums_view(out@),
            ),
        decreases nodes.len() - k,
    {
        let j = nodes[k];
        assert(positions(nodes@)[k as int] == j as int);
        let code = match doc.attribute(j, "enum") {
            Some(c) => c,
            None => {
                proof {
                    lemma_enums_error(doc@, positions(nodes@), k + 1, nodes.len() as int);
                }
                return Err(SchemaError::MissingAttribute("enum".to_owned()));
            },
        };
        let description = match doc.attribute(j, "description") {
            Some(d) => d.to_owned(),
            None => String::new(),
        };
        let ghost before = enums_view(out@);
        let value = EnumValue { code: code.to_owned(), description };
        out.push(value);
        assert(enums_view(out@) =~= before.push(value@));
        k = k + 1;
    }
    Ok(out)
}

/// Reads one field definition.
fn load_field(doc: &XmlDocument, j: usize) -> (r: Result<FieldDef, SchemaError>)
    requires
        j < doc@.len(),
    ensures
        match r {
            Ok(f) => field_of(doc@, j as int) == Ok::<_, SchemaErrorModel>(f@),
            Err(e) => field_of(doc@, j as int) == Err::<FieldModel, _>(e@),
        },
{
    let tag = match doc.attribute(j, "number") {
        Some(number) => match parse_u32_text(number.as_bytes()) {
            Some(n) => n,
            None => {
                return Err(SchemaError::MissingAttribute("number".to_owned()));
            },
        },
        None => {
            return Err(SchemaError::MissingAttribute("number".to_owned()));
        },
    };
    let name = match doc.attribute(j, "name") {
        Some(n) => n,
        None => {
            return Err(SchemaError::MissingAttribute("name".to_owned()));
        },
    };
    let ty = match doc.attribute(j, "type") {
        Some(t) => t,
        None => {
            return Err(SchemaError::MissingAttribute("type".to_owned()));
        },
    };
    let base_type = match parse_base_type(ty) {
        Some(b) => b,
        None => {
            return Err(SchemaError::UnknownType(ty.to_owned()));
        },
    };
    let values = doc.children_named(j, "value");
    let enums = match load_enums(doc, &values) {
        Ok(e) => e,
        Err(e) => {
            return Err(e);
        },
    };
    Ok(FieldDef { tag, name: name.to_owned(), base_type, enums })
}

/// Reads the field definitions, refusing tags and names that occur twice.
#[verifier::loop_isolation(false)]
fn load_fields(doc: &XmlDocument, nodes: &Vec<usize>) -> (r: Result<Vec<FieldDef>, SchemaError>)
    requires
        forall|n: int| 0 <= n < nodes@.len() ==> (#[trigger] nodes@[n]) < doc@.len(),
    ensures
        match r {
            Ok(v) => fields_upto(doc@, positions(nodes@), nodes.len() as int) == Ok::<
                _,
                SchemaErrorModel,
            >(fields_view(v@)),
            Err(e) => fields_upto(doc@, positions(nodes@), nodes.len() as int) == Err::<
                Seq<FieldModel>,
                _,
            >(e@),
        },
{
    let mut out: Vec<FieldDef> = Vec::new();
    assert(fields_view(out@) =~= Seq::empty());
    let mut k: usize = 0;
    while k < nodes.len()
        invariant
            k <= nodes.len(),
            fields_upto(doc@, positions(nodes@), k as int) == Ok::<_, SchemaErrorModel>(
                fields_view(out@),
            ),
        decreases nodes.len() - k,
    {
        let j = nodes[k];
        assert(positions(nodes@)[k as int] == j as int);
        let field = match load_field(doc, j) {
            Ok(f) => f,
            Err(e) => {
                proof {
                    lemma_fields_error(doc@, positions(nodes@), k + 1, nodes.len() as int);
                }
                return Err(e);
            },
        };
        if find_field_by_tag(&out, field.tag).is_some() {
            proof {
                lemma_fields_error(doc@, positions(nodes@), k + 1, nodes.len() as int);
            }
            return Err(SchemaError::DuplicateTag(field.tag));
        }
        if find_field_by_name(&out, field.name.as_str()).is_some() {
            proof {
                lemma_fields_error(doc@, positions(nodes@), k + 1, nodes.len() as int);
            }
            return Err(SchemaError::DuplicateName(field.name.clone()));
        }
        let ghost before = fields_view(out@);
        out.push(field);
        assert(fields_view(out@) =~= before.push(field@));
        k = k + 1;
    }
    Ok(out)
}

/// Reads the names of the components, after those of the standard header
/// and trailer.
#[verifier::loop_isolation(false)]
fn load_component_names(doc: &XmlDocument, nodes: &Vec<usize>) -> (r: Result<
    Vec<String>,
    SchemaError,
>)
    requires
        forall|n: int| 0 <= n < nodes@.len() ==> (#[trigger] nodes@[n]) < doc@.len(),
    ensures
        match r {
            Ok(v) => component_names_upto(doc@, positions(nodes@), nodes.len() as int) == Ok::<
                _,
                SchemaErrorModel,
            >(names_view(v@)),
            Err(e) => component_names_upto(doc@, positions(nodes@), nodes.len() as int) == Err::<
                Seq<Seq<char>>,
                _,
            >(e@),
        },
{
    let mut out: Vec<String> = Vec::new();
    out.push("StandardHeader".to_owned());
    out.push("StandardTrailer".to_owned());
    assert(names_view(out@) =~= seq!["StandardHeader"@, "StandardTrailer"@]);
    let mut k: usize = 0;
    while k < nodes.len()
        invariant
            k <= nodes.len(),
            component_names_upto(doc@, positions(nodes@), k as int) == Ok::<_, SchemaErrorModel>(
                names_view(out@),
            ),
        decreases nodes.len() - k,
    {
        let j = nodes[k];
        assert(positions(nodes@)[k as int] == j as int);
        let name = match doc.attribute(j, "name") {
            Some(n) => n,
            None => {
                proof {
                    lemma_names_error(doc@, positions(nodes@), k + 1, nodes.len() as int);
                }
                return Err(SchemaError::MissingAttribute("name".to_owned()));
            },
        };
        let ghost before = names_view(out@);
        out.push(name.to_owned());
        assert(names_view(out@) =~= before.push(name@));
        k = k + 1;
    }
    Ok(out)
}

/// The tag that opens each entry of a group.
fn delimiter(fields: &Vec<FieldDef>, members: &Vec<Member>) -> (r: Option<u32>)
    ensures
        r == delimiter_of(fields_view(fields@), members_model(members@)),
{
    if members.len() == 0 {
        return None;
    }
    match &members[0] {
        Member::Field { field, .. } => {
            if *field < fields.len() {
                Some(fields[*field].tag)
            } else {
                None
            }
        },
        Member::Group { counter, .. } => {
            if *counter < fields.len() {
                Some(fields[*counter].tag)
            } else {
                None
            }
        },
        Member::Component { .. } => None,
    }
}

/// Reads one member of a component, a group or a message.
fn load_member(doc: &XmlDocument, fields: &Vec<FieldDef>, names: &Vec<String>, j: usize) -> (r:
    Result<Member, SchemaError>)
    requires
        j < doc@.len(),
    ensures
        match r {
            Ok(m) => member_of(doc@, fields_view(fields@), names_view(names@), j as int) == Ok::<
                _,
                SchemaErrorModel,
            >(m.model()),
            Err(e) => member_of(doc@, fields_view(fields@), names_view(names@), j as int) == Err::<
                MemberModel,
                _,
            >(e@),
        },
    decreases doc@.len() - j, 1int, 0int,
{
    let required = match doc.attribute(j, "required") {
        Some(v) => str_eq(v, "Y"),
        None => false,
    };
    if doc.has_name(j, "field") {
        let name = match doc.attribute(j, "name") {
            Some(n) => n,
            None => {
                return Err(SchemaError::MissingAttribute("name".to_owned()));
            },
        };
        match find_field_by_name(fields, name) {
            Some(field) => Ok(Member::Field { field, required }),
            None => Err(SchemaError::UnknownReference(name.to_owned())),
        }
    } else if doc.has_name(j, "component") {
        let name = match doc.attribute(j, "name") {
            Some(n) => n,
            None => {
                return Err(SchemaError::MissingAttribute("name".to_owned()));
            },
        };
        match find_name(names, name) {
            Some(component) => Ok(Member::Component { component, required }),
            None => Err(SchemaError::UnknownReference(name.to_owned())),
        }
    } else if doc.has_name(j, "group") {
        let name = match doc.attribute(j, "name") {
            Some(n) => n,
            None => {
                return Err(SchemaError::MissingAttribute("name".to_owned()));
            },
        };
        let counter = match find_field_by_name(fields, name) {
            Some(c) => c,
            None => {
                return Err(SchemaError::UnknownReference(name.to_owned()));
            },
        };
        assert(fields_view(fields@)[counter as int] == fields@[counter as int]@);
        match fields[counter].base_type {
            BaseType::NumInGroup => {},
            _ => {
                return Err(SchemaError::UnknownReference(name.to_owned()));
            },
        }
        let members = match load_members(doc, fields, names, j) {
            Ok(m) => m,
            Err(e) => {
                return Err(e);
            },
        };
        match delimiter(fields, &members) {
            Some(delimiter) => {
                let r = Member::Group { counter, delimiter, required, members };
                assert(r.model()->Group_members =~= members_model(members@));
                Ok(r)
            },
            None => Err(SchemaError::UnknownReference(name.to_owned())),
        }
    } else {
        Err(SchemaError::BadXml)
    }
}

/// Reads the members that the element children of `parent` define.
#[verifier::loop_isolation(false)]
fn load_members(doc: &XmlDocument, fields: &Vec<FieldDef>, names: &Vec<String>, parent: usize) -> (r:
    Result<Vec<Member>, SchemaError>)
    requires
        parent < doc@.len(),
    ensures
        match r {
            Ok(ms) => members_of(doc@, fields_view(fields@), names_view(names@), parent as int)
                == Ok::<_, SchemaErrorModel>(members_model(ms@)),
            Err(e) => members_of(doc@, fields_view(fields@), names_view(names@), parent as int)
                == Err::<Seq<MemberModel>, _>(e@),
        },
    decreases doc@.len() - parent, 0int, 0int,
{
    let children = doc.children(parent);
    let ghost fv = fields_view(fields@);
    let ghost nv = names_view(names@);
    let ghost cs = positions(children@);
    let mut out: Vec<Member> = Vec::new();
    assert(members_model(out@) =~= Seq::empty());
    let mut k: usize = 0;
    while k < children.len()
        invariant
            k <= children.len(),
            members_upto(doc@, fv, nv, parent as int, cs, k as int) == Ok::<_, SchemaErrorModel>(
                members_model(out@),
            ),
        decreases children.len() - k,
    {
        let child = children[k];
        assert(cs[k as int] == child as int);
        if child <= parent {
            proof {
                lemma_members_error(doc@, fv, nv, parent as int, cs, k + 1, cs.len() as int);
            }
            return Err(SchemaError::BadXml);
        }
        match load_member(doc, fields, names, child) {
            Ok(m) => {
                let ghost before = members_model(out@);
                out.push(m);
                assert(members_model(out@) =~= before.push(m.model()));
            },
            Err(e) => {
                proof {
                    lemma_members_error(doc@, fv, nv, parent as int, cs, k + 1, cs.len() as int);
                }
                return Err(e);
            },
        }
        k = k + 1;
    }
    Ok(out)
}

/// Reads the members of a section of the document; none where the section
/// is absent.
fn load_section(
    doc: &XmlDocument,
    fields: &Vec<FieldDef>,
    names: &Vec<String>,
    root: usize,
    section: &str,
) -> (r: Result<Vec<Member>, SchemaError>)
    requires
        root < doc@.len(),
    ensures
        match r {
            Ok(ms) => section_members(
                doc@,
                fields_view(fields@),
                names_view(names@),
                root as int,
                section@,
            ) == Ok::<_, SchemaErrorModel>(members_model(ms@)),
            Err(e) => section_members(
                doc@,
                fields_view(fields@),
                names_view(names@),
                root as int,
                section@,
            ) == Err::<Seq<MemberModel>, _>(e@),
        },
{
    match doc.first_child_named(root, section) {
        Some(s) => load_members(doc, fields, names, s),
        None => {
            let out: Vec<Member> = Vec::new();
            assert(members_model(out@) =~= Seq::empty());
            Ok(out)
        },
    }
}

/// The elements called `child` in the section `section` below `root`.
fn section_nodes(doc: &XmlDocument, root: usize, section: &str, child: &str) -> (r: Vec<usize>)
    requires
        root < doc@.len(),
    ensures
        positions(r@) == section_children(doc@, root as int, section@, child@),
        forall|n: int| 0 <= n < r@.len() ==> (#[trigger] r@[n]) < doc@.len(),
{
    match doc.first_child_named(root, section) {
        Some(s) => doc.children_named(s, child),
        None => {
            let out: Vec<usize> = Vec::new();
            assert(positions(out@) =~= Seq::empty());
            out
        },
    }
}

/// Reads the components.
#[verifier::loop_isolation(false)]
fn load_components(
    doc: &XmlDocument,
    fields: &Vec<FieldDef>,
    names: &Vec<String>,
    nodes: &Vec<usize>,
    header: Vec<Member>,
    trailer: Vec<Member>,
) -> (r: Result<Vec<ComponentDef>, SchemaError>)
    requires
        forall|n: int| 0 <= n < nodes@.len() ==> (#[trigger] nodes@[n]) < doc@.len(),
    ensures
        match r {
            Ok(cs) => components_upto(
                doc@,
                fields_view(fields@),
                names_view(names@),
                positions(nodes@),
                nodes.len() as int,
            ) matches Ok(list) && components_view(cs@) == seq![
                ComponentModel { name: "StandardHeader"@, members: members_model(header@) },
                ComponentModel { name: "StandardTrailer"@, members: members_model(trailer@) },
            ] + list,
            Err(e) => components_upto(
                doc@,
                fields_view(fields@),
                names_view(names@),
                positions(nodes@),
                nodes.len() as int,
            ) == Err::<Seq<ComponentModel>, _>(e@),
        },
{
    let ghost fv = fields_view(fields@);
    let ghost nv = names_view(names@);
    let ghost ns = positions(nodes@);
    let ghost first = seq![
        ComponentModel { name: "StandardHeader"@, members: members_model(header@) },
        ComponentModel { name: "StandardTrailer"@, members: members_model(trailer@) },
    ];
    let mut out: Vec<ComponentDef> = Vec::new();
    out.push(ComponentDef { name: "StandardHeader".to_owned(), members: header });
    out.push(ComponentDef { name: "StandardTrailer".to_owned(), members: trailer });
    assert(components_view(out@) =~= first + Seq::<ComponentModel>::empty());
    let mut k: usize = 0;
    while k < nodes.len()
        invariant
            k <= nodes.len(),
            components_upto(doc@, fv, nv, ns, k as int) is Ok,
            components_view(out@) == first + components_upto(doc@, fv, nv, ns, k as int)->Ok_0,
        decreases nodes.len() - k,
    {
        let j = nodes[k];
        assert(ns[k as int] == j as int);
        let name = match doc.attribute(j, "name") {
            Some(n) => n,
            None => {
                proof {
                    lemma_components_error(doc@, fv, nv, ns, k + 1, ns.len() as int);
                }
                return Err(SchemaError::MissingAttribute("name".to_owned()));
            },
        };
        let members = match load_members(doc, fields, names, j) {
            Ok(m) => m,
            Err(e) => {
                proof {
                    lemma_components_error(doc@, fv, nv, ns, k + 1, ns.len() as int);
                }
                return Err(e);
            },
        };
        let ghost before = components_view(out@);
        let component = ComponentDef { name: name.to_owned(), members };
        out.push(component);
        assert(components_view(out@) =~= before.push(component@));
        assert(before.push(component@) =~= first + components_upto(
            doc@,
            fv,
            nv,
            ns,
            k + 1,
        )->Ok_0);
        k = k + 1;
    }
    Ok(out)
}

/// Reads the messages.
#[verifier::loop_isolation(false)]
fn load_messages(
    doc: &XmlDocument,
    fields: &Vec<FieldDef>,
    names: &Vec<String>,
    nodes: &Vec<usize>,
) -> (r: Result<Vec<MessageDef>, SchemaError>)
    requires
        forall|n: int| 0 <= n < nodes@.len() ==> (#[trigger] nodes@[n]) < doc@.len(),
    ensures
        match r {
            Ok(ms) => messages_upto(
                doc@,
                fields_view(fields@),
                names_view(names@),
                positions(nodes@),
                nodes.len() as int,
            ) == Ok::<_, SchemaErrorModel>(messages_view(ms@)),
            Err(e) => messages_upto(
                doc@,
                fields_view(fields@),
                names_view(names@),
                positions(nodes@),
                nodes.len() as int,
            ) == Err::<Seq<MessageDefModel>, _>(e@),
        },
{
    let ghost fv = fields_view(fields@);
    let ghost nv = names_view(names@);
    let ghost ns = positions(nodes@);
    let mut out: Vec<MessageDef> = Vec::new();
    assert(messages_view(out@) =~= Seq::empty());
    let mut k: usize = 0;
    while k < nodes.len()
        invariant
            k <= nodes.len(),
            messages_upto(doc@, fv, nv, ns, k as int) == Ok::<_, SchemaErrorModel>(
                messages_view(out@),
            ),
        decreases nodes.len() - k,
    {
        let j = nodes[k];
        assert(ns[k as int] == j as int);
        let name = match doc.attribute(j, "name") {
            Some(n) => n,
            None => {
                proof {
                    lemma_messages_error(doc@, fv, nv, ns, k + 1, ns.len() as int);
                }
                return Err(SchemaError::MissingAttribute("name".to_owned()));
            },
        };
        let msg_type = match doc.attribute(j, "msgtype") {
            Some(n) => n,
            None => {
                proof {
                    lemma_messages_error(doc@, fv, nv, ns, k + 1, ns.len() as int);
                }
                return Err(SchemaError::MissingAttribute("msgtype".to_owned()));
            },
        };
        let body = match load_members(doc, fields, names, j) {
            Ok(m) => m,
            Err(e) => {
                proof {
                    lemma_messages_error(doc@, fv, nv, ns, k + 1, ns.len() as int);
                }
                return Err(e);
            },
        };
        let ghost inner = members_model(body@);
        let mut members: Vec<Member> = Vec::new();
        members.push(Member::Component { component: 0, required: true });
        let mut body = body;
        let mut rest: Vec<Member> = Vec::new();
        core::mem::swap(&mut body, &mut rest);
        members.append(&mut rest);
        members.push(Member::Component { component: 1, required: true });
        assert(members_model(members@) =~= framed(inner));
        let ghost before = messages_view(out@);
        let message = MessageDef { msg_type: msg_type.to_owned(), name: name.to_owned(), members };
        out.push(message);
        assert(messages_view(out@) =~= before.push(message@));
        k = k + 1;
    }
    Ok(out)
}

impl Dictionary {
    /// Builds the dictionary that a parsed definition document stands for.
    pub fn from_xml(doc: &XmlDocument) -> (r: Result<Dictionary, SchemaError>)
        ensures
            match r {
                Ok(d) => dictionary_of(doc@) == Ok::<_, SchemaErrorModel>(d@) && d@.wf(),
                Err(e) => dictionary_of(doc@) == Err::<DictionaryModel, _>(e@),
            },
    {
        if doc.len() == 0 {
            return Err(SchemaError::BadXml);
        }
        let root = match doc.first_element_child(0) {
            Some(r) => r,
            None => {
                return Err(SchemaError::BadXml);
            },
        };
        if !doc.has_name(root, "fix") {
            return Err(SchemaError::BadXml);
        }
        let version = match parse_version(doc, root) {
            Some(v) => v,
            None => {
                return Err(SchemaError::BadXml);
            },
        };
        let field_nodes = section_nodes(doc, root, "fields", "field");
        let component_nodes = section_nodes(doc, root, "components", "component");
        let message_nodes = section_nodes(doc, root, "messages", "message");
        let fields = match load_fields(doc, &field_nodes) {
            Ok(f) => f,
            Err(e) => {
                return Err(e);
            },
        };
        let names = match load_component_names(doc, &component_nodes) {
            Ok(n) => n,
            Err(e) => {
                return Err(e);
            },
        };
        let header = match load_section(doc, &fields, &names, root, "header") {
            Ok(m) => m,
            Err(e) => {
                return Err(e);
            },
        };
        let trailer = match load_section(doc, &fields, &names, root, "trailer") {
            Ok(m) => m,
            Err(e) => {
                return Err(e);
            },
        };
        let components = match load_components(
            doc,
            &fields,
            &names,
            &component_nodes,
            header,
            trailer,
        ) {
            Ok(c) => c,
            Err(e) => {
                return Err(e);
            },
        };
        let messages = match load_messages(doc, &fields, &names, &message_nodes) {
            Ok(m) => m,
            Err(e) => {
                return Err(e);
            },
        };
        proof {
            lemma_dictionary_of_wf(doc@);
        }
        Ok(Dictionary::assemble(version, fields, components, messages))
    }

    /// Reads a dictionary from the text of a QuickFIX definition file.
    pub fn from_quickfix_spec(input: &str) -> (r: Result<Dictionary, SchemaError>)
        ensures
            match r {
                Ok(d) => dictionary_of_text(parsed_xml(input@)) == Ok::<_, SchemaErrorModel>(d@)
                    && d@.wf(),
                Err(e) => dictionary_of_text(parsed_xml(input@)) == Err::<DictionaryModel, _>(e@),
            },
    {
        match XmlDocument::parse(input) {
            Some(doc) => Dictionary::from_xml(&doc),
            None => Err(SchemaError::BadXml),
        }
    }

    /// Reads the dictionary that is bundled for `version`. The bundled text
    /// has to describe that version and to define at least one field and one
    /// message.
    pub fn from_version(version: Version) -> (r: Result<Dictionary, SchemaError>)
        ensures
            match r {
                Ok(d) => bundled_dictionary(version) == Ok::<_, SchemaErrorModel>(d@) && d@.wf(),
                Err(e) => bundled_dictionary(version) == Err::<DictionaryModel, _>(e@),
            },
    {
        let text = version.get_quickfix_spec();
        match Dictionary::from_quickfix_spec(text.as_str()) {
            Ok(d) => {
                if d.version() == version && !d.is_empty() && d.message_count() > 0 {
                    Ok(d)
                } else {
                    Err(SchemaError::BadXml)
                }
            },
            Err(e) => Err(e),
        }
    }
}

} // verus!
