//! An owned document tree: every node holds its own data and the subtrees below it.

use vstd::prelude::*;

verus! {

/// One attribute of an element: the namespace and local name of its name, and its value.
#[derive(Debug, PartialEq, Eq)]
pub struct Attr {
    pub ns: String,
    pub local: String,
    pub value: String,
}

/// What a node is, apart from its children.
#[derive(Debug, PartialEq, Eq)]
pub enum NodeKind {
    /// The root of a document.
    Document,
    /// A `<!DOCTYPE ...>` declaration.
    Doctype { name: String },
    /// Character data.
    Text { contents: String },
    /// A comment.
    Comment { contents: String },
    /// An element: the namespace and local name of its tag, and its attributes in order.
    Element { ns: String, local: String, attrs: Vec<Attr> },
    /// A processing instruction.
    ProcessingInstruction { target: String, contents: String },
}

/// A node of the tree. It owns its children, so a tree has no sharing and no cycles.
#[derive(Debug, PartialEq, Eq)]
pub struct DocNode {
    pub data: NodeKind,
    pub children: Vec<DocNode>,
}

/// Mathematical model of an [`Attr`].
pub struct AttrView {
    pub ns: Seq<char>,
    pub local: Seq<char>,
    pub value: Seq<char>,
}

/// Mathematical model of a [`NodeKind`].
pub enum NodeKindView {
    Document,
    Doctype { name: Seq<char> },
    Text { contents: Seq<char> },
    Comment { contents: Seq<char> },
    Element { ns: Seq<char>, local: Seq<char>, attrs: Seq<AttrView> },
    ProcessingInstruction { target: Seq<char>, contents: Seq<char> },
}

/// Mathematical model of a [`DocNode`]: its data and the models of its children, in order.
pub struct DocNodeView {
    pub data: NodeKindView,
    pub children: Seq<DocNodeView>,
}

impl View for Attr {
    type V = AttrView;

    open spec fn view(&self) -> AttrView {
        AttrView { ns: self.ns@, local: self.local@, value: self.value@ }
    }
}

/// The models of a sequence of attributes, in order.
pub open spec fn attrs_view(attrs: Seq<Attr>) -> Seq<AttrView> {
    Seq::new(attrs.len(), |i: int| attrs[i]@)
}

impl View for NodeKind {
    type V = NodeKindView;

    open spec fn view(&self) -> NodeKindView {
        match self {
            NodeKind::Document => NodeKindView::Document,
            NodeKind::Doctype { name } => NodeKindView::Doctype { name: name@ },
            NodeKind::Text { contents } => NodeKindView::Text { contents: contents@ },
            NodeKind::Comment { contents } => NodeKindView::Comment { contents: contents@ },
            NodeKind::Element { ns, local, attrs } => NodeKindView::Element {
                ns: ns@,
                local: local@,
                attrs: attrs_view(attrs@),
            },
            NodeKind::ProcessingInstruction { target, contents } => {
                NodeKindView::ProcessingInstruction { target: target@, contents: contents@ }
            },
        }
    }
}

/// The model of a node, built from the models of its children.
pub open spec fn node_view(node: DocNode) -> DocNodeView
    decreases node, 1int,
{
    DocNodeView { data: node.data@, children: forest_view(node.children@) }
}

/// The models of a sequence of nodes, in order.
pub open spec fn forest_view(nodes: Seq<DocNode>) -> Seq<DocNodeView>
    decreases nodes, 0int,
{
    Seq::new(
        nodes.len(),
        |i: int|
            if 0 <= i < nodes.len() {
                node_view(nodes[i])
            } else {
                arbitrary()
            },
    )
}

impl View for DocNode {
    type V = DocNodeView;

    open spec fn view(&self) -> DocNodeView {
        node_view(*self)
    }
}

/// The most characters that a name, a value or a text of a tree may hold for the tree
/// to be written as markup. The HTML library keeps lengths in 32 bits, a character
/// takes at most four bytes, and a text handed over for writing is copied at its own
/// length: four times this bound is a 32-bit length.
pub const MAX_TEXT_CHARS: usize = 0x3fff_ffff;

/// A text is short enough to be written as markup.
pub open spec fn text_fits(text: Seq<char>) -> bool {
    text.len() <= MAX_TEXT_CHARS
}

/// Every part of an attribute is short enough.
pub open spec fn attr_fits(attr: AttrView) -> bool {
    text_fits(attr.ns) && text_fits(attr.local) && text_fits(attr.value)
}

/// Every text in the data of a node is short enough.
pub open spec fn data_fits(data: NodeKindView) -> bool {
    match data {
        NodeKindView::Document => true,
        NodeKindView::Doctype { name } => text_fits(name),
        NodeKindView::Text { contents } => text_fits(contents),
        NodeKindView::Comment { contents } => text_fits(contents),
        NodeKindView::Element { ns, local, attrs } => {
            &&& text_fits(ns)
            &&& text_fits(local)
            &&& forall|i: int| 0 <= i < attrs.len() ==> attr_fits(#[trigger] attrs[i])
        },
        NodeKindView::ProcessingInstruction { target, contents } => {
            text_fits(target) && text_fits(contents)
        },
    }
}

/// The node can be written as markup: neither it nor a node below it is a document
/// node, and every text in it and below it is short enough.
pub open spec fn node_fits(node: DocNodeView) -> bool
    decreases node,
{
    &&& !(node.data is Document)
    &&& data_fits(node.data)
    &&& forall|i: int| 0 <= i < node.children.len() ==> node_fits(#[trigger] node.children[i])
}

/// Whether a text is short enough to be written as markup.
pub fn fits_text(text: &String) -> (b: bool)
    ensures
        b == text_fits(text@),
{
    text.as_str().unicode_len() <= MAX_TEXT_CHARS
}

/// The namespace of HTML elements.
pub open spec fn html_namespace() -> Seq<char> {
    "http://www.w3.org/1999/xhtml"@
}

impl Attr {
    /// An attribute without a namespace.
    pub fn new(local: &str, value: &str) -> (attr: Attr)
        ensures
            attr@ == (AttrView { ns: Seq::empty(), local: local@, value: value@ }),
    {
        Attr { ns: String::new(), local: String::from_str(local), value: String::from_str(value) }
    }

    /// Whether every part of the attribute is short enough.
    pub fn fits(&self) -> (b: bool)
        ensures
            b == attr_fits(self@),
    {
        fits_text(&self.ns) && fits_text(&self.local) && fits_text(&self.value)
    }
}

impl NodeKind {
    /// Whether this is the data of a document node.
    pub fn is_document(&self) -> (b: bool)
        ensures
            b == (self@ is Document),
    {
        match self {
            NodeKind::Document => true,
            _ => false,
        }
    }

    /// Whether every text in the data is short enough.
    pub fn fits(&self) -> (b: bool)
        ensures
            b == data_fits(self@),
    {
        match self {
            NodeKind::Document => true,
            NodeKind::Doctype { name } => fits_text(name),
            NodeKind::Text { contents } => fits_text(contents),
            NodeKind::Comment { contents } => fits_text(contents),
            NodeKind::Element { ns, local, attrs } => {
                if !fits_text(ns) || !fits_text(local) {
                    return false;
                }
                let mut i: usize = 0;
                while i < attrs.len()
                    invariant
                        i <= attrs.len(),
                        self@ == (NodeKindView::Element {
                            ns: ns@,
                            local: local@,
                            attrs: attrs_view(attrs@),
                        }),
                        text_fits(ns@),
                        text_fits(local@),
                        forall|k: int| 0 <= k < i ==> attr_fits(#[trigger] attrs_view(attrs@)[k]),
                    decreases attrs.len() - i,
                {
                    if !attrs[i].fits() {
                        assert(!attr_fits(self@->Element_attrs[i as int]));
                        return false;
                    }
                    i += 1;
                }
                true
            },
            NodeKind::ProcessingInstruction { target, contents } => {
                fits_text(target) && fits_text(contents)
            },
        }
    }
}

impl DocNode {
    /// A text node.
    pub fn text(contents: &str) -> (node: DocNode)
        ensures
            node@ == (DocNodeView {
                data: NodeKindView::Text { contents: contents@ },
                children: Seq::empty(),
            }),
    {
        let node = DocNode {
            data: NodeKind::Text { contents: String::from_str(contents) },
            children: Vec::new(),
        };
        assert(node@.children =~= Seq::empty());
        node
    }

    /// An HTML element with the given tag, attributes and children.
    pub fn element(tag: &str, attrs: Vec<Attr>, children: Vec<DocNode>) -> (node: DocNode)
        ensures
            node@ == (DocNodeView {
                data: NodeKindView::Element {
                    ns: html_namespace(),
                    local: tag@,
                    attrs: attrs_view(attrs@),
                },
                children: forest_view(children@),
            }),
    {
        DocNode {
            data: NodeKind::Element {
                ns: String::from_str("http://www.w3.org/1999/xhtml"),
                local: String::from_str(tag),
                attrs,
            },
            children,
        }
    }

    /// A document node with the given children.
    pub fn document(children: Vec<DocNode>) -> (node: DocNode)
        ensures
            node@ == (DocNodeView {
                data: NodeKindView::Document,
                children: forest_view(children@),
            }),
    {
        DocNode { data: NodeKind::Document, children }
    }

    /// Whether the node can be written as markup, see [`node_fits`].
    pub fn fits(&self) -> (b: bool)
        ensures
            b == node_fits(self@),
        decreases self,
    {
        if self.data.is_document() || !self.data.fits() {
            return false;
        }
        let mut i: usize = 0;
        while i < self.children.len()
            invariant
                i <= self.children.len(),
                !(self@.data is Document),
                data_fits(self@.data),
                self@.children == forest_view(self.children@),
                forall|k: int| 0 <= k < i ==> node_fits(#[trigger] self@.children[k]),
            decreases self.children.len() - i,
        {
            let child = &self.children[i];
            assert(self@.children[i as int] == child@);
            if !child.fits() {
                return false;
            }
            i += 1;
        }
        true
    }
}

impl Clone for Attr {
    /// A copy with the same model.
    fn clone(&self) -> (copy: Attr)
        ensures
            copy@ == self@,
    {
        Attr { ns: self.ns.clone(), local: self.local.clone(), value: self.value.clone() }
    }
}

/// A copy of a list of attributes, with the same models in the same order.
fn clone_attrs(attrs: &Vec<Attr>) -> (copy: Vec<Attr>)
    ensures
        attrs_view(copy@) == attrs_view(attrs@),
{
    let mut copy: Vec<Attr> = Vec::with_capacity(attrs.len());
    let mut i: usize = 0;
    while i < attrs.len()
        invariant
            i <= attrs.len(),
            copy@.len() == i,
            forall|k: int| 0 <= k < i ==> (#[trigger] copy@[k])@ == attrs@[k]@,
        decreases attrs.len() - i,
    {
        copy.push(attrs[i].clone());
        i += 1;
    }
    copy
}

impl Clone for NodeKind {
    /// A copy with the same model.
    fn clone(&self) -> (copy: NodeKind)
        ensures
            copy@ == self@,
    {
        match self {
            NodeKind::Document => NodeKind::Document,
            NodeKind::Doctype { name } => NodeKind::Doctype { name: name.clone() },
            NodeKind::Text { contents } => NodeKind::Text { contents: contents.clone() },
            NodeKind::Comment { contents } => NodeKind::Comment { contents: contents.clone() },
            NodeKind::Element { ns, local, attrs } => NodeKind::Element {
                ns: ns.clone(),
                local: local.clone(),
                attrs: clone_attrs(attrs),
            },
            NodeKind::ProcessingInstruction { target, contents } => {
                NodeKind::ProcessingInstruction {
                    target: target.clone(),
                    contents: contents.clone(),
                }
            },
        }
    }
}

impl Clone for DocNode {
    /// A copy of the whole subtree, with the same model.
    fn clone(&self) -> (copy: DocNode)
        ensures
            copy@ == self@,
        decreases self,
    {
        let mut children: Vec<DocNode> = Vec::with_capacity(self.children.len());
        let mut i: usize = 0;
        while i < self.children.len()
            invariant
                i <= self.children.len(),
                children@.len() == i,
                forall|k: int| 0 <= k < i ==> (#[trigger] children@[k])@ == self.children@[k]@,
            decreases self.children.len() - i,
        {
            children.push(self.children[i].clone());
            i += 1;
        }
        assert(forest_view(children@) =~= forest_view(self.children@));
        DocNode { data: self.data.clone(), children }
    }
}

/// Whether every node of a sequence can be written as markup.
pub open spec fn forest_fits(nodes: Seq<DocNodeView>) -> bool {
    forall|i: int| 0 <= i < nodes.len() ==> node_fits(#[trigger] nodes[i])
}

} // verus!
