//! FAST templates and the loader that reads them from their XML form.

use crate::codec::fast::errors::StaticError;
use crate::codec::fast::field_operators::FieldOperatorInstruction;
use crate::dictionary::{Dictionary, DictionaryModel};
use crate::error::{SchemaError, SchemaErrorModel};
use crate::text::{number_u32_text, parse_u32_text, str_eq};
use crate::xml::{
    attribute, element_children, ordered, parsed_xml, positions, NodeModel, XmlDocument,
};
use vstd::prelude::*;
use vstd::utf8::encode_utf8;

verus! {

/// A scaled number: `mantissa` times ten to the power of `exponent`.
#[derive(Clone, Copy, Debug, PartialEq, Eq, Structural)]
pub struct Decimal {
    pub exponent: i32,
    pub mantissa: i64,
}

/// A value of one of the primitive types.
#[derive(Clone, Debug)]
pub enum PrimitiveValue<'a> {
    SInt32(i32),
    UInt32(u32),
    SInt64(i64),
    UInt64(u64),
    Decimal(Decimal),
    Ascii(&'a [u8]),
    Utf8(&'a [u8]),
    Bytes(&'a [u8]),
}

/// The primitive types.
#[derive(Clone, Copy, Debug, PartialEq, Eq, Structural)]
pub enum PrimitiveType {
    SInt32,
    UInt32,
    SInt64,
    UInt64,
    Decimal,
    Ascii,
    Utf8,
    Bytes,
}

/// What a field instruction stands for: a primitive value, or a group of
/// that many instructions.
#[derive(Clone, Copy, Debug, PartialEq, Eq, Structural)]
pub enum FieldType {
    Primitive(PrimitiveType),
    Group(u32),
}

/// One instruction of a template.
#[derive(Clone, Debug)]
pub struct FieldInstruction {
    field_type: FieldType,
    name: String,
    id: u32,
    mandatory: bool,
    operator: FieldOperatorInstruction,
}

/// The mathematical model of a [`FieldInstruction`].
pub struct InstructionModel {
    pub field_type: FieldType,
    pub name: Seq<char>,
    pub id: u32,
    pub mandatory: bool,
    pub operator: FieldOperatorInstruction,
}

impl View for FieldInstruction {
    type V = InstructionModel;

    closed spec fn view(&self) -> InstructionModel {
        InstructionModel {
            field_type: self.field_type,
            name: self.name@,
            id: self.id,
            mandatory: self.mandatory,
            operator: self.operator,
        }
    }
}

impl FieldInstruction {
    /// What the instruction stands for.
    pub fn kind(&self) -> (r: &FieldType)
        ensures
            *r == self@.field_type,
    {
        &self.field_type
    }

    /// Whether the field must be present in every message.
    pub fn is_mandatory(&self) -> (r: bool)
        ensures
            r == self@.mandatory,
    {
        self.mandatory
    }

    /// The name of the field.
    pub fn name(&self) -> (r: &str)
        ensures
            r@ == self@.name,
    {
        self.name.as_str()
    }

    /// The identifier of the field.
    pub fn id(&self) -> (r: u32)
        ensures
            r == self@.id,
    {
        self.id
    }

    /// The operator of the field.
    pub fn operator(&self) -> (r: FieldOperatorInstruction)
        ensures
            r == self@.operator,
    {
        self.operator
    }

    /// Reads one instruction from the element at `node`: the element's tag
    /// gives the type, the attributes `name` and `id` are required, and
    /// `presence` makes the field optional unless it is absent or `true`.
    pub fn from_template(doc: &XmlDocument, node: usize) -> (r: Result<Self, StaticError>)
        requires
            node < doc@.len(),
        ensures
            match r {
                Ok(i) => instruction_of(doc@[node as int]) == Ok::<_, SchemaErrorModel>(i@),
                Err(e) => instruction_of(doc@[node as int]) == Err::<InstructionModel, _>(e@),
            },
    {
        let name = match doc.attribute(node, "name") {
            Some(v) => v,
            None => {
                return Err(StaticError::S1(SchemaError::MissingAttribute("name".to_owned())));
            },
        };
        let id = match doc.attribute(node, "id") {
            Some(v) => match parse_u32_text(v.as_bytes()) {
                Some(n) => n,
                None => {
                    return Err(StaticError::S1(SchemaError::MissingAttribute("id".to_owned())));
                },
            },
            None => {
                return Err(StaticError::S1(SchemaError::MissingAttribute("id".to_owned())));
            },
        };
        let mandatory = match doc.attribute(node, "presence") {
            Some(v) => str_eq(v, "true"),
            None => true,
        };
        let field_type = match Template::xml_tag_to_instruction(doc.name(node)) {
            Ok(t) => t,
            Err(e) => {
                return Err(e);
            },
        };
        Ok(
            FieldInstruction {
                field_type,
                name: name.to_owned(),
                id,
                mandatory,
                operator: FieldOperatorInstruction::Constant,
            },
        )
    }
}

/// The type that an element's tag stands for in a template.
pub open spec fn field_type_of(tag: Seq<char>) -> Option<FieldType> {
    if tag == "string"@ {
        Some(FieldType::Primitive(PrimitiveType::Ascii))
    } else if tag == "uInt32"@ {
        Some(FieldType::Primitive(PrimitiveType::UInt32))
    } else if tag == "int32"@ {
        Some(FieldType::Primitive(PrimitiveType::SInt32))
    } else if tag == "uInt64"@ {
        Some(FieldType::Primitive(PrimitiveType::UInt64))
    } else if tag == "int64"@ {
        Some(FieldType::Primitive(PrimitiveType::SInt64))
    } else if tag == "decimal"@ {
        Some(FieldType::Primitive(PrimitiveType::Decimal))
    } else if tag == "byteVector"@ {
        Some(FieldType::Primitive(PrimitiveType::Bytes))
    } else if tag == "length"@ {
        Some(FieldType::Primitive(PrimitiveType::UInt32))
    } else {
        None
    }
}

/// The number that the attribute `name` of `node` holds: decimal digits
/// after an optional `+`, of a value that fits in 32 bits.
pub open spec fn attribute_u32(node: NodeModel, name: Seq<char>) -> Option<u32> {
    match attribute(node, name) {
        Some(v) => number_u32_text(encode_utf8(v)),
        None => None,
    }
}

/// The instruction that an element defines, or the reason why it defines
/// none.
pub open spec fn instruction_of(node: NodeModel) -> Result<InstructionModel, SchemaErrorModel> {
    match attribute(node, "name"@) {
        None => Err(SchemaErrorModel::MissingAttribute("name"@)),
        Some(name) => match attribute_u32(node, "id"@) {
            None => Err(SchemaErrorModel::MissingAttribute("id"@)),
            Some(id) => match field_type_of(node.name) {
                None => Err(SchemaErrorModel::UnknownType(node.name)),
                Some(field_type) => Ok(
                    InstructionModel {
                        field_type,
                        name,
                        id,
                        mandatory: match attribute(node, "presence"@) {
                            Some(v) => v == "true"@,
                            None => true,
                        },
                        operator: FieldOperatorInstruction::Constant,
                    },
                ),
            },
        },
    }
}

/// The elements that stand for instructions below one child of a template:
/// the children of a `sequence`, nothing for a `typeRef`, the child itself
/// otherwise.
pub open spec fn instruction_nodes_of(doc: Seq<NodeModel>, child: int) -> Seq<int> {
    if doc[child].name == "sequence"@ {
        element_children(doc, child)
    } else if doc[child].name == "typeRef"@ {
        Seq::empty()
    } else {
        seq![child]
    }
}

/// The elements that stand for instructions below the first `k` of
/// `children`, in document order.
pub open spec fn instruction_nodes_upto(doc: Seq<NodeModel>, children: Seq<int>, k: int) -> Seq<
    int,
>
    decreases k,
{
    if k <= 0 {
        Seq::empty()
    } else {
        instruction_nodes_upto(doc, children, k - 1) + instruction_nodes_of(doc, children[k - 1])
    }
}

/// The elements that stand for the instructions of the template at `root`.
pub open spec fn instruction_nodes(doc: Seq<NodeModel>, root: int) -> Seq<int> {
    instruction_nodes_upto(
        doc,
        element_children(doc, root),
        element_children(doc, root).len() as int,
    )
}

/// The instructions of the first `k` of `nodes`, or the error of the first
/// element that defines none.
pub open spec fn instructions_upto(doc: Seq<NodeModel>, nodes: Seq<int>, k: int) -> Result<
    Seq<InstructionModel>,
    SchemaErrorModel,
>
    decreases k,
{
    if k <= 0 {
        Ok(Seq::empty())
    } else {
        match instructions_upto(doc, nodes, k - 1) {
            Err(e) => Err(e),
            Ok(list) => match instruction_of(doc[nodes[k - 1]]) {
                Err(e) => Err(e),
                Ok(i) => Ok(list.push(i)),
            },
        }
    }
}

/// The mathematical model of a [`Template`].
pub struct TemplateModel {
    pub id: Option<u32>,
    pub name: Seq<char>,
    pub instructions: Seq<InstructionModel>,
    pub dictionary: DictionaryModel,
}

/// The template that the element at `root` defines over `dictionary`: the
/// element is a `template`, has a `name`, has a numeric `id` or none, and
/// each of its instruction elements defines an instruction.
pub open spec fn template_of(doc: Seq<NodeModel>, root: int, dictionary: DictionaryModel) -> Result<
    TemplateModel,
    SchemaErrorModel,
> {
    if doc[root].name != "template"@ {
        Err(SchemaErrorModel::BadXml)
    } else {
        match attribute(doc[root], "name"@) {
            None => Err(SchemaErrorModel::MissingAttribute("name"@)),
            Some(name) => if attribute(doc[root], "id"@) is Some && attribute_u32(
                doc[root],
                "id"@,
            ) is None {
                Err(SchemaErrorModel::MissingAttribute("id"@))
            } else {
                let nodes = instruction_nodes(doc, root);
                match instructions_upto(doc, nodes, nodes.len() as int) {
                    Err(e) => Err(e),
                    Ok(instructions) => Ok(
                        TemplateModel {
                            id: attribute_u32(doc[root], "id"@),
                            name,
                            instructions,
                            dictionary,
                        },
                    ),
                }
            },
        }
    }
}

/// The template that a parsed document defines: the first element below
/// the document's outermost element.
pub open spec fn template_of_document(parsed: Option<Seq<NodeModel>>) -> Result<
    TemplateModel,
    SchemaErrorModel,
> {
    match parsed {
        None => Err(SchemaErrorModel::BadXml),
        Some(doc) => if !ordered(doc) || doc.len() == 0 || element_children(doc, 0).len() == 0 {
            Err(SchemaErrorModel::BadXml)
        } else {
            let container = element_children(doc, 0)[0];
            if element_children(doc, container).len() == 0 {
                Err(SchemaErrorModel::BadXml)
            } else {
                template_of(
                    doc,
                    element_children(doc, container)[0],
                    Dictionary::empty_model(),
                )
            }
        },
    }
}

/// Templates are used to represent the structure of the data that is to be
/// encoded. A template represents a logical unit of data as it is transmitted
/// from sender to receiver. In other words, a template is used to represent a
/// specific message type. When planning to encode a data feed a user should
/// begin by converting standard message formats to templates.
///
/// Templates need to be communicated from sender to receiver. The originator of
/// the data is responsible for distributing the templates once they have been
/// defined.
#[derive(Clone, Debug)]
pub struct Template {
    /// Each template is assigned a Template ID that can be used to uniquely
    /// describe the format of an encoded message. A Template ID will be carried
    /// in every encoded message which will provide a link to the correct
    /// template for decoding.
    id: Option<u32>,
    /// Used for code generation.
    name: String,
    instructions: Vec<FieldInstruction>,
    dictionary: Dictionary,
}

impl View for Template {
    type V = TemplateModel;

    closed spec fn view(&self) -> TemplateModel {
        TemplateModel {
            id: self.id,
            name: self.name@,
            instructions: self.instructions@.map_values(|i: FieldInstruction| i@),
            dictionary: self.dictionary@,
        }
    }
}

impl Template {
    /// Reads the first template of a template document.
    pub fn new(xml_document: &str) -> (r: Result<Template, StaticError>)
        ensures
            match r {
                Ok(t) => template_of_document(parsed_xml(xml_document@)) == Ok::<
                    _,
                    SchemaErrorModel,
                >(t@),
                Err(e) => template_of_document(parsed_xml(xml_document@)) == Err::<
                    TemplateModel,
                    _,
                >(e@),
            },
    {
        let document = match XmlDocument::parse(xml_document) {
            Some(d) => d,
            None => {
                return Err(StaticError::S1(SchemaError::BadXml));
            },
        };
        if document.len() == 0 {
            return Err(StaticError::S1(SchemaError::BadXml));
        }
        let container = match document.first_element_child(0) {
            Some(c) => c,
            None => {
                return Err(StaticError::S1(SchemaError::BadXml));
            },
        };
        let root = match document.first_element_child(container) {
            Some(c) => c,
            None => {
                return Err(StaticError::S1(SchemaError::BadXml));
            },
        };
        Template::from_xml(Dictionary::empty(), &document, root)
    }

    /// Reads the template that the element at `root` defines.
    #[verifier::loop_isolation(false)]
    pub fn from_xml(dict: Dictionary, doc: &XmlDocument, root: usize) -> (r: Result<
        Self,
        StaticError,
    >)
        requires
            root < doc@.len(),
        ensures
            match r {
                Ok(t) => template_of(doc@, root as int, dict@) == Ok::<_, SchemaErrorModel>(t@),
                Err(e) => template_of(doc@, root as int, dict@) == Err::<TemplateModel, _>(e@),
            },
    {
        if !doc.has_name(root, "template") {
            return Err(StaticError::S1(SchemaError::BadXml));
        }
        let name = match doc.attribute(root, "name") {
            Some(v) => v,
            None => {
                return Err(StaticError::S1(SchemaError::MissingAttribute("name".to_owned())));
            },
        };
        let id = match doc.attribute(root, "id") {
            Some(num) => match parse_u32_text(num.as_bytes()) {
                Some(n) => Some(n),
                None => {
                    return Err(StaticError::S1(SchemaError::MissingAttribute("id".to_owned())));
                },
            },
            None => None,
        };
        let nodes = Template::instruction_elements(doc, root);
        let mut instructions: Vec<FieldInstruction> = Vec::new();
        assert(instructions@.map_values(|i: FieldInstruction| i@) =~= Seq::empty());
        let mut k: usize = 0;
        while k < nodes.len()
            invariant
                k <= nodes.len(),
                forall|n: int| 0 <= n < nodes@.len() ==> (#[trigger] nodes@[n]) < doc@.len(),
                instructions_upto(doc@, positions(nodes@), k as int) == Ok::<_, SchemaErrorModel>(
                    instructions@.map_values(|i: FieldInstruction| i@),
                ),
            decreases nodes.len() - k,
        {
            assert(positions(nodes@)[k as int] == nodes@[k as int] as int);
            match FieldInstruction::from_template(doc, nodes[k]) {
                Ok(instruction) => {
                    let ghost before = instructions@.map_values(|i: FieldInstruction| i@);
                    instructions.push(instruction);
                    assert(instructions@.map_values(|i: FieldInstruction| i@) =~= before.push(
                        instruction@,
                    ));
                },
                Err(e) => {
                    proof {
                        lemma_instructions_error(doc@, positions(nodes@), k + 1, nodes@.len() as int);
                    }
                    return Err(e);
                },
            }
            k = k + 1;
        }
        Ok(Template { id, name: name.to_owned(), instructions, dictionary: dict })
    }

    /// The elements that stand for the instructions of the template at
    /// `root`, in document order.
    fn instruction_elements(doc: &XmlDocument, root: usize) -> (r: Vec<usize>)
        requires
            root < doc@.len(),
        ensures
            positions(r@) == instruction_nodes(doc@, root as int),
            forall|n: int| 0 <= n < r@.len() ==> (#[trigger] r@[n]) < doc@.len(),
    {
        let children = doc.children(root);
        let mut out: Vec<usize> = Vec::new();
        let mut k: usize = 0;
        while k < children.len()
            invariant
                k <= children.len(),
                positions(children@) == element_children(doc@, root as int),
                forall|n: int| 0 <= n < children@.len() ==> (#[trigger] children@[n]) < doc@.len(),
                positions(out@) =~= instruction_nodes_upto(doc@, positions(children@), k as int),
                forall|n: int| 0 <= n < out@.len() ==> (#[trigger] out@[n]) < doc@.len(),
            decreases children.len() - k,
        {
            let child = children[k];
            assert(positions(children@)[k as int] == child as int);
            if doc.has_name(child, "sequence") {
                let inner = doc.children(child);
                let mut n: usize = 0;
                let ghost before = out@;
                while n < inner.len()
                    invariant
                        n <= inner.len(),
                        out@ =~= before + inner@.subrange(0, n as int),
                        forall|m: int| 0 <= m < inner@.len() ==> (#[trigger] inner@[m]) < doc@.len(),
                        forall|m: int| 0 <= m < before.len() ==> (#[trigger] before[m]) < doc@.len(),
                    decreases inner.len() - n,
                {
                    out.push(inner[n]);
                    n = n + 1;
                }
                assert(inner@.subrange(0, n as int) =~= inner@);
                assert(positions(out@) =~= positions(before) + positions(inner@));
            } else if doc.has_name(child, "typeRef") {
            } else {
                out.push(child);
            }
            k = k + 1;
        }
        out
    }

    /// The identifier of the template, if it has one.
    pub fn id(&self) -> (r: Option<u32>)
        ensures
            r == self@.id,
    {
        self.id
    }

    /// The name of the template.
    pub fn name(&self) -> (r: &str)
        ensures
            r@ == self@.name,
    {
        self.name.as_str()
    }

    /// The instructions of the template, in order.
    pub fn iter_items(&self) -> (r: &[FieldInstruction])
        ensures
            r@.map_values(|i: FieldInstruction| i@) == self@.instructions,
    {
        self.instructions.as_slice()
    }

    /// The dictionary that the template was built over.
    pub fn dictionary(&self) -> (r: &Dictionary)
        ensures
            r@ == self@.dictionary,
    {
        &self.dictionary
    }

    /// The type that an element's tag stands for.
    pub fn xml_tag_to_instruction(tag: &str) -> (r: Result<FieldType, StaticError>)
        ensures
            match r {
                Ok(t) => field_type_of(tag@) == Some(t),
                Err(e) => field_type_of(tag@) is None && e@ == SchemaErrorModel::UnknownType(tag@),
            },
    {
        if str_eq(tag, "string") {
            Ok(FieldType::Primitive(PrimitiveType::Ascii))
        } else if str_eq(tag, "uInt32") {
            Ok(FieldType::Primitive(PrimitiveType::UInt32))
        } else if str_eq(tag, "int32") {
            Ok(FieldType::Primitive(PrimitiveType::SInt32))
        } else if str_eq(tag, "uInt64") {
            Ok(FieldType::Primitive(PrimitiveType::UInt64))
        } else if str_eq(tag, "int64") {
            Ok(FieldType::Primitive(PrimitiveType::SInt64))
        } else if str_eq(tag, "decimal") {
            Ok(FieldType::Primitive(PrimitiveType::Decimal))
        } else if str_eq(tag, "byteVector") {
            Ok(FieldType::Primitive(PrimitiveType::Bytes))
        } else if str_eq(tag, "length") {
            Ok(FieldType::Primitive(PrimitiveType::UInt32))
        } else {
            Err(StaticError::S1(SchemaError::UnknownType(tag.to_owned())))
        }
    }

    /// Whether a `presence` attribute makes a field mandatory. The attribute
    /// holds `true` or `false`.
    pub fn _xml_presence_attribute_to_bool(attribute: &str) -> (r: bool)
        requires
            attribute@ == "true"@ || attribute@ == "false"@,
        ensures
            r == (attribute@ == "true"@),
    {
        str_eq(attribute, "true")
    }
}

/// Once an element fails, the whole list fails with the same error.
pub proof fn lemma_instructions_error(doc: Seq<NodeModel>, nodes: Seq<int>, k: int, n: int)
    requires
        0 <= k <= n,
        instructions_upto(doc, nodes, k) is Err,
    ensures
        instructions_upto(doc, nodes, n) == instructions_upto(doc, nodes, k),
    decreases n - k,
{
    if k < n {
        lemma_instructions_error(doc, nodes, k, n - 1);
    }
}

} // verus!
