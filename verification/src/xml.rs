//! A plain model of a parsed XML document: its nodes in document order, each
//! with its parent, tag name and attributes. The parsing itself is done by
//! `roxmltree`; everything that reads the tree is verified against this model.

use crate::text::str_eq;
use vstd::prelude::*;

verus! {

/// One attribute of an element: local name and value.
#[derive(Debug, Clone)]
pub struct XmlAttribute {
    pub name: String,
    pub value: String,
}

/// One node of a document.
#[derive(Debug, Clone)]
pub struct XmlNode {
    /// Whether the node is an element (not text, a comment or the root).
    pub is_element: bool,
    /// The position of the parent node in the document, if there is one.
    pub parent: Option<usize>,
    /// The local tag name; empty for nodes that are not elements.
    pub name: String,
    /// The attributes in source order; empty for nodes that are not elements.
    pub attributes: Vec<XmlAttribute>,
}

/// The mathematical model of an [`XmlAttribute`].
pub struct AttributeModel {
    pub name: Seq<char>,
    pub value: Seq<char>,
}

/// The mathematical model of an [`XmlNode`].
pub struct NodeModel {
    pub is_element: bool,
    pub parent: Option<int>,
    pub name: Seq<char>,
    pub attributes: Seq<AttributeModel>,
}

impl View for XmlAttribute {
    type V = AttributeModel;

    open spec fn view(&self) -> AttributeModel {
        AttributeModel { name: self.name@, value: self.value@ }
    }
}

impl View for XmlNode {
    type V = NodeModel;

    open spec fn view(&self) -> NodeModel {
        NodeModel {
            is_element: self.is_element,
            parent: match self.parent {
                Some(p) => Some(p as int),
                None => None,
            },
            name: self.name@,
            attributes: self.attributes@.map_values(|a: XmlAttribute| a@),
        }
    }
}

/// The nodes that `roxmltree` finds in `text`, in document order, or `None`
/// where it rejects the text.
pub uninterp spec fn parsed_xml(text: Seq<char>) -> Option<Seq<NodeModel>>;

/// The models of a list of nodes.
pub open spec fn nodes_model(nodes: Seq<XmlNode>) -> Seq<NodeModel> {
    nodes.map_values(|n: XmlNode| n@)
}

/// Every parent stands before its children.
pub open spec fn ordered(doc: Seq<NodeModel>) -> bool {
    forall|j: int|
        0 <= j < doc.len() ==> match (#[trigger] doc[j]).parent {
            Some(p) => 0 <= p < j,
            None => true,
        }
}

/// Whether node `j` is an element directly below node `i`.
pub open spec fn is_element_child(doc: Seq<NodeModel>, i: int, j: int) -> bool {
    0 <= j < doc.len() && doc[j].is_element && doc[j].parent == Some(i)
}

/// The element children of node `i` among the first `k` nodes, in document
/// order.
pub open spec fn element_children_upto(doc: Seq<NodeModel>, i: int, k: int) -> Seq<int>
    decreases k,
{
    if k <= 0 {
        Seq::empty()
    } else if is_element_child(doc, i, k - 1) {
        element_children_upto(doc, i, k - 1).push(k - 1)
    } else {
        element_children_upto(doc, i, k - 1)
    }
}

/// The element children of node `i`, in document order.
pub open spec fn element_children(doc: Seq<NodeModel>, i: int) -> Seq<int> {
    element_children_upto(doc, i, doc.len() as int)
}

/// The element children of node `i` with the tag name `name` among the first
/// `k` nodes, in document order.
pub open spec fn named_children_upto(doc: Seq<NodeModel>, i: int, name: Seq<char>, k: int) -> Seq<
    int,
>
    decreases k,
{
    if k <= 0 {
        Seq::empty()
    } else if is_element_child(doc, i, k - 1) && doc[k - 1].name == name {
        named_children_upto(doc, i, name, k - 1).push(k - 1)
    } else {
        named_children_upto(doc, i, name, k - 1)
    }
}

/// The element children of node `i` with the tag name `name`, in document
/// order.
pub open spec fn named_children(doc: Seq<NodeModel>, i: int, name: Seq<char>) -> Seq<int> {
    named_children_upto(doc, i, name, doc.len() as int)
}

/// The first element child of node `i` with the tag name `name`.
pub open spec fn first_named_child(doc: Seq<NodeModel>, i: int, name: Seq<char>) -> Option<int> {
    if named_children(doc, i, name).len() > 0 {
        Some(named_children(doc, i, name)[0])
    } else {
        None
    }
}

/// Positions in a document, as mathematical integers.
pub open spec fn positions(v: Seq<usize>) -> Seq<int> {
    v.map_values(|j: usize| j as int)
}

/// The value of the first attribute called `name` among `attrs[k..]`.
pub open spec fn attribute_from(attrs: Seq<AttributeModel>, name: Seq<char>, k: int) -> Option<
    Seq<char>,
>
    decreases attrs.len() - k,
{
    if k < 0 || k >= attrs.len() {
        None
    } else if attrs[k].name == name {
        Some(attrs[k].value)
    } else {
        attribute_from(attrs, name, k + 1)
    }
}

/// The value of the first attribute of `node` whose local name is `name`.
pub open spec fn attribute(node: NodeModel, name: Seq<char>) -> Option<Seq<char>> {
    attribute_from(node.attributes, name, 0)
}

/// `roxmltree::Document::parse`, then `descendants()` over the whole
/// document: the nodes in document order, which is the order of their
/// identifiers, each with `is_element()`, the identifier of `parent()`,
/// `tag_name().name()` and the local name and value of each of
/// `attributes()`. `None` where the parser rejects the text.
#[verifier::external_body]
fn parse_nodes(text: &str) -> (r: Option<Vec<XmlNode>>)
    ensures
        r is Some <==> parsed_xml(text@) is Some,
        r matches Some(nodes) ==> nodes_model(nodes@) == parsed_xml(text@).unwrap(),
{
    let doc = roxmltree::Document::parse(text).ok()?;
    Some(doc.descendants().map(|n| XmlNode {
        is_element: n.is_element(),
        parent: n.parent().map(|p| p.id().get_usize()),
        name: n.tag_name().name().to_string(),
        attributes: n.attributes().map(|a| XmlAttribute {
            name: a.name().to_string(),
            value: a.value().to_string(),
        }).collect(),
    }).collect())
}

/// A parsed document whose nodes are known to stand in document order.
#[derive(Debug, Clone)]
pub struct XmlDocument {
    nodes: Vec<XmlNode>,
}

impl View for XmlDocument {
    type V = Seq<NodeModel>;

    closed spec fn view(&self) -> Seq<NodeModel> {
        nodes_model(self.nodes@)
    }
}

impl XmlDocument {
    /// The invariant of the type: parents stand before their children.
    pub open spec fn wf(&self) -> bool {
        ordered(self@)
    }

    /// Builds a document from its nodes, or `None` where a node names a
    /// parent that does not stand before it.
    pub fn from_nodes(nodes: Vec<XmlNode>) -> (r: Option<XmlDocument>)
        ensures
            r is Some <==> ordered(nodes_model(nodes@)),
            r matches Some(doc) ==> doc.wf() && doc@ == nodes_model(nodes@),
    {
        let ghost model = nodes_model(nodes@);
        let mut j: usize = 0;
        while j < nodes.len()
            invariant
                j <= nodes.len(),
                model == nodes_model(nodes@),
                forall|k: int|
                    0 <= k < j ==> match (#[trigger] model[k]).parent {
                        Some(p) => 0 <= p < k,
                        None => true,
                    },
            decreases nodes.len() - j,
        {
            match nodes[j].parent {
                Some(p) => {
                    if p >= j {
                        assert(model[j as int].parent == Some(p as int));
                        return None;
                    }
                },
                None => {},
            }
            j = j + 1;
        }
        Some(XmlDocument { nodes })
    }

    /// Parses `text`. `None` where the text is not well-formed XML.
    pub fn parse(text: &str) -> (r: Option<XmlDocument>)
        ensures
            r is Some <==> (parsed_xml(text@) matches Some(m) && ordered(m)),
            r matches Some(doc) ==> doc.wf() && Some(doc@) == parsed_xml(text@),
    {
        match parse_nodes(text) {
            Some(nodes) => XmlDocument::from_nodes(nodes),
            None => None,
        }
    }

    /// The number of nodes.
    pub fn len(&self) -> (n: usize)
        ensures
            n == self@.len(),
    {
        self.nodes.len()
    }

    /// Whether node `i` is an element.
    pub fn is_element(&self, i: usize) -> (r: bool)
        requires
            i < self@.len(),
        ensures
            r == self@[i as int].is_element,
    {
        self.nodes[i].is_element
    }

    /// The tag name of node `i`.
    pub fn name(&self, i: usize) -> (r: &str)
        requires
            i < self@.len(),
        ensures
            r@ == self@[i as int].name,
    {
        self.nodes[i].name.as_str()
    }

    /// Whether node `i` carries the tag name `name`.
    pub fn has_name(&self, i: usize, name: &str) -> (r: bool)
        requires
            i < self@.len(),
        ensures
            r == (self@[i as int].name == name@),
    {
        str_eq(self.nodes[i].name.as_str(), name)
    }

    /// The value of the attribute `name` of node `i`.
    pub fn attribute(&self, i: usize, name: &str) -> (r: Option<&str>)
        requires
            i < self@.len(),
        ensures
            match r {
                Some(v) => attribute(self@[i as int], name@) == Some(v@),
                None => attribute(self@[i as int], name@) is None,
            },
    {
        let node = &self.nodes[i];
        let ghost attrs = self@[i as int].attributes;
        let mut k: usize = 0;
        while k < node.attributes.len()
            invariant
                k <= node.attributes.len(),
                i < self@.len(),
                attrs == self@[i as int].attributes,
                attrs == node.attributes@.map_values(|a: XmlAttribute| a@),
                attribute_from(attrs, name@, 0) == attribute_from(attrs, name@, k as int),
            decreases node.attributes.len() - k,
        {
            if str_eq(node.attributes[k].name.as_str(), name) {
                return Some(node.attributes[k].value.as_str());
            }
            k = k + 1;
        }
        None
    }

    /// The element children of node `i`, in document order.
    pub fn children(&self, i: usize) -> (r: Vec<usize>)
        requires
            i < self@.len(),
        ensures
            positions(r@) == element_children(self@, i as int),
            forall|n: int| 0 <= n < r@.len() ==> (#[trigger] r@[n]) < self@.len(),
    {
        let mut out: Vec<usize> = Vec::new();
        let mut j: usize = 0;
        while j < self.nodes.len()
            invariant
                j <= self.nodes.len(),
                self@.len() == self.nodes.len(),
                positions(out@) =~= element_children_upto(self@, i as int, j as int),
                forall|n: int| 0 <= n < out@.len() ==> (#[trigger] out@[n]) < self@.len(),
            decreases self.nodes.len() - j,
        {
            let node = &self.nodes[j];
            let is_child = node.is_element && match node.parent {
                Some(p) => p == i,
                None => false,
            };
            assert(is_child == is_element_child(self@, i as int, j as int));
            if is_child {
                out.push(j);
            }
            j = j + 1;
        }
        out
    }

    /// The element children of node `i` that carry the tag name `name`, in
    /// document order.
    pub fn children_named(&self, i: usize, name: &str) -> (r: Vec<usize>)
        requires
            i < self@.len(),
        ensures
            positions(r@) == named_children(self@, i as int, name@),
            forall|n: int| 0 <= n < r@.len() ==> (#[trigger] r@[n]) < self@.len(),
    {
        let mut out: Vec<usize> = Vec::new();
        let mut j: usize = 0;
        while j < self.nodes.len()
            invariant
                j <= self.nodes.len(),
                self@.len() == self.nodes.len(),
                positions(out@) =~= named_children_upto(self@, i as int, name@, j as int),
                forall|n: int| 0 <= n < out@.len() ==> (#[trigger] out@[n]) < self@.len(),
            decreases self.nodes.len() - j,
        {
            let node = &self.nodes[j];
            let is_child = node.is_element && match node.parent {
                Some(p) => p == i,
                None => false,
            };
            assert(is_child == is_element_child(self@, i as int, j as int));
            if is_child && str_eq(node.name.as_str(), name) {
                out.push(j);
            }
            j = j + 1;
        }
        out
    }

    /// The first element child of node `i` that carries the tag name `name`.
    pub fn first_child_named(&self, i: usize, name: &str) -> (r: Option<usize>)
        requires
            i < self@.len(),
        ensures
            match r {
                Some(j) => first_named_child(self@, i as int, name@) == Some(j as int) && j
                    < self@.len(),
                None => first_named_child(self@, i as int, name@) is None,
            },
    {
        let children = self.children_named(i, name);
        assert(positions(children@).len() == children@.len());
        if children.len() > 0 {
            assert(positions(children@)[0] == children@[0] as int);
            Some(children[0])
        } else {
            None
        }
    }

    /// The first element child of node `i`, if it has one.
    pub fn first_element_child(&self, i: usize) -> (r: Option<usize>)
        requires
            i < self@.len(),
        ensures
            match r {
                Some(j) => element_children(self@, i as int).len() > 0 && j as int
                    == element_children(self@, i as int)[0] && j < self@.len(),
                None => element_children(self@, i as int).len() == 0,
            },
    {
        let children = self.children(i);
        assert(positions(children@).len() == children@.len());
        if children.len() > 0 {
            assert(positions(children@)[0] == children@[0] as int);
            Some(children[0])
        } else {
            None
        }
    }
}

} // verus!
