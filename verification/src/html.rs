//! The boundary to the HTML library (`html5ever` with the `markup5ever_rcdom` tree):
//! parsing markup into the owned tree and writing a tree back as markup. What the HTML
//! library does is not proved here: each item that rests on it says what it assumes.

use crate::dom::{
    attr_fits, attrs_view, data_fits, node_fits, text_fits, Attr, DocNode, DocNodeView, NodeKind,
};
use html5ever::serialize::{SerializeOpts, TraversalScope};
use html5ever::tendril::{StrTendril, TendrilSink};
use html5ever::{LocalName, Namespace, ParseOpts, QualName};
use markup5ever_rcdom::{NodeData, RcDom, SerializableHandle};
use std::cell::{Cell, RefCell};
use std::rc::Rc;
use vstd::prelude::*;
use vstd::utf8::encode_utf8;

verus! {

/// `markup5ever_rcdom::Node`, a reference-counted DOM node. Opaque here: it is only
/// handed from one conversion to the next.
#[verifier::external_type_specification]
#[verifier::external_body]
pub struct ExDomNode(markup5ever_rcdom::Node);

/// `markup5ever_rcdom::NodeData`, what a DOM node is apart from its children. Opaque here.
#[verifier::external_type_specification]
#[verifier::external_body]
pub struct ExDomNodeData(markup5ever_rcdom::NodeData);

/// `html5ever::Attribute`, a qualified name with a value. Opaque here.
#[verifier::external_type_specification]
#[verifier::external_body]
pub struct ExDomAttribute(html5ever::Attribute);

/// The tree that `html5ever::parse_document` builds for a text, as copied by
/// [`parse_html`].
pub uninterp spec fn parsed_document(html: Seq<char>) -> DocNodeView;

/// The markup that `html5ever::serialize` writes for a node, the node itself included,
/// as produced by [`print_node`].
pub uninterp spec fn node_markup(node: DocNodeView) -> Seq<char>;

/// The longest text, in bytes, that is handed to the parser. The parser gathers each
/// text, comment, name and value in a buffer of the HTML library that cannot grow past
/// 2^31 bytes, and what it gathers can be three times as long as what it read: it puts
/// the replacement character, of three bytes, for a NUL character, of one. Three times
/// this bound stays below 2^31.
pub const MAX_DOCUMENT_BYTES: usize = 0x2aaa_aaaa;

/// The text is short enough to be parsed: its UTF-8 form has at most
/// [`MAX_DOCUMENT_BYTES`] bytes.
pub open spec fn can_parse(html: Seq<char>) -> bool {
    encode_utf8(html).len() <= MAX_DOCUMENT_BYTES
}

/// Whether a text is short enough to be parsed.
pub fn is_parsable(html: &str) -> (b: bool)
    ensures
        b == can_parse(html@),
{
    html.as_bytes().len() <= MAX_DOCUMENT_BYTES
}

/// Copies a `html5ever::Attribute`: the namespace and local name of its name, and its
/// value. The prefix of the name is left behind.
#[verifier::external_body]
fn attr_from_dom(attr: &html5ever::Attribute) -> Attr {
    Attr {
        ns: attr.name.ns.to_string(),
        local: attr.name.local.to_string(),
        value: attr.value.to_string(),
    }
}

/// Copies a `markup5ever_rcdom::NodeData`, variant by variant. Of a doctype only the name
/// is kept; of an element its namespace, its local name and its attributes.
#[verifier::external_body]
fn data_from_dom(data: &markup5ever_rcdom::NodeData) -> NodeKind {
    match data {
        NodeData::Document => NodeKind::Document,
        NodeData::Doctype { name, .. } => NodeKind::Doctype { name: name.to_string() },
        NodeData::Text { contents } => NodeKind::Text { contents: contents.borrow().to_string() },
        NodeData::Comment { contents } => NodeKind::Comment { contents: contents.to_string() },
        NodeData::Element { name, attrs, .. } => NodeKind::Element {
            ns: name.ns.to_string(),
            local: name.local.to_string(),
            attrs: attrs.borrow().iter().map(attr_from_dom).collect(),
        },
        NodeData::ProcessingInstruction { target, contents } => {
            NodeKind::ProcessingInstruction { target: target.to_string(), contents: contents.to_string() }
        },
    }
}

/// Copies a `markup5ever_rcdom::Node` and everything below it: its data and its
/// children, in order.
#[verifier::external_body]
fn node_from_dom(handle: &Rc<markup5ever_rcdom::Node>) -> DocNode {
    DocNode {
        data: data_from_dom(&handle.data),
        children: handle.children.borrow().iter().map(node_from_dom).collect(),
    }
}

/// Calls `html5ever::parse_document` with the default options, feeds it the whole text
/// at once (`TendrilSink::one`) and copies the document node of the result. The result
/// depends on the text alone. The bound keeps every buffer that the parser fills within
/// what the HTML library can hold, see [`MAX_DOCUMENT_BYTES`]. That the parser returns
/// on every text within the bound is assumed here: the HTML library does not say so
/// itself, and its tree is documented as made for its own tests.
#[verifier::external_body]
pub(crate) fn parse_html(html: &str) -> (document: DocNode)
    requires
        can_parse(html@),
    ensures
        document@ == parsed_document(html@),
{
    let dom = html5ever::parse_document(RcDom::default(), ParseOpts::default()).one(html);
    node_from_dom(&dom.document)
}

/// Builds a `html5ever::Attribute` without a prefix from an owned attribute. The HTML
/// library stops on a text beyond its 32-bit lengths: [`attr_fits`] leaves that out.
#[verifier::external_body]
fn attr_to_dom(attr: &Attr) -> html5ever::Attribute
    requires
        attr_fits(attr@),
{
    html5ever::Attribute {
        name: QualName::new(None, Namespace::from(attr.ns.as_str()), LocalName::from(attr.local.as_str())),
        value: StrTendril::from(attr.value.as_str()),
    }
}

/// Builds the `markup5ever_rcdom::NodeData` of an element in the given namespace, with
/// the given local name and attributes, without a prefix and without template contents.
/// Every text has to be within the lengths of the HTML library, as for [`attr_to_dom`].
#[verifier::external_body]
fn element_to_dom(ns: &String, local: &String, attrs: &Vec<Attr>) -> markup5ever_rcdom::NodeData
    requires
        text_fits(ns@),
        text_fits(local@),
        forall|i: int| 0 <= i < attrs@.len() ==> attr_fits(#[trigger] attrs_view(attrs@)[i]),
{
    NodeData::Element {
        name: QualName::new(None, Namespace::from(ns.as_str()), LocalName::from(local.as_str())),
        attrs: RefCell::new(attrs.iter().map(attr_to_dom).collect()),
        template_contents: RefCell::new(None),
        mathml_annotation_xml_integration_point: false,
    }
}

/// Builds a `markup5ever_rcdom::NodeData` from an owned one, variant by variant. What the
/// owned tree does not keep (the ids of a doctype, the prefix and the template contents
/// of an element) is left empty; the serializer reads none of it. Every text has to be
/// within the lengths of the HTML library: [`data_fits`] says so.
#[verifier::external_body]
fn data_to_dom(data: &NodeKind) -> markup5ever_rcdom::NodeData
    requires
        data_fits(data@),
{
    match data {
        NodeKind::Document => NodeData::Document,
        NodeKind::Doctype { name } => NodeData::Doctype {
            name: StrTendril::from(name.as_str()),
            public_id: StrTendril::new(),
            system_id: StrTendril::new(),
        },
        NodeKind::Text { contents } => NodeData::Text { contents: RefCell::new(StrTendril::from(contents.as_str())) },
        NodeKind::Comment { contents } => NodeData::Comment { contents: StrTendril::from(contents.as_str()) },
        NodeKind::Element { ns, local, attrs } => element_to_dom(ns, local, attrs),
        NodeKind::ProcessingInstruction { target, contents } => NodeData::ProcessingInstruction {
            target: StrTendril::from(target.as_str()),
            contents: StrTendril::from(contents.as_str()),
        },
    }
}

/// Builds a `markup5ever_rcdom::Node`, with everything below it, from an owned tree.
/// Every text in the tree has to be within the lengths of the HTML library;
/// [`node_fits`] says so, and more than is needed here: it leaves the document nodes
/// out as well, on which only the serializer stops.
#[verifier::external_body]
fn node_to_dom(node: &DocNode) -> Rc<markup5ever_rcdom::Node>
    requires
        node_fits(node@),
{
    Rc::new(markup5ever_rcdom::Node {
        parent: Cell::new(None),
        children: RefCell::new(node.children.iter().map(node_to_dom).collect()),
        data: data_to_dom(&node.data),
    })
}

/// Calls `html5ever::serialize` with the traversal scope `IncludeNode` and the default
/// options otherwise, under which the node is written with everything below it, and
/// hands back what was written. The serializer stops on a document node, be it the
/// node it is given or one below it, and the HTML library on a text beyond its 32-bit
/// lengths: [`node_fits`] leaves both out.
#[verifier::external_body]
pub(crate) fn print_node(node: &DocNode) -> (markup: String)
    requires
        node_fits(node@),
    ensures
        markup@ == node_markup(node@),
{
    let mut output = Vec::new();
    let handle = SerializableHandle::from(node_to_dom(node));
    let opts = SerializeOpts { traversal_scope: TraversalScope::IncludeNode, ..SerializeOpts::default() };
    let _ = html5ever::serialize(&mut output, &handle, opts);
    String::from_utf8_lossy(&output).into_owned()
}

/// Parses a text as an HTML document. There is a document for every text that is
/// short enough for the parser, and none for a longer one.
pub fn parse_document(html: &str) -> (document: Option<DocNode>)
    ensures
        document is Some <==> can_parse(html@),
        document is Some ==> document->Some_0@ == parsed_document(html@),
{
    if is_parsable(html) {
        Some(parse_html(html))
    } else {
        None
    }
}

} // verus!
