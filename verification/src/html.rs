use vstd::prelude::*;
use ego_tree::NodeId;
use scraper::Html;

verus! {

/// A parsed HTML document (a tree of nodes).
#[verifier::external_type_specification]
#[verifier::external_body]
pub struct ExHtml(scraper::Html);

/// The identity of a node in a parsed HTML document.
#[verifier::external_type_specification]
#[verifier::external_body]
pub struct ExNodeId(ego_tree::NodeId);

/// What a node of a document is: one variant for each kind of node that a document holds.
pub enum NodeKind {
    /// The root of a whole document.
    Document,
    /// The root of a fragment.
    Fragment,
    /// A doctype.
    Doctype,
    /// A comment.
    Comment,
    /// A processing instruction.
    ProcessingInstruction,
    /// A text node and its text.
    Text(Seq<char>),
    /// An element.
    Element {
        /// The prefix of its qualified name, if it has one.
        prefix: Option<Seq<char>>,
        /// The namespace of its qualified name.
        namespace: Seq<char>,
        /// The local part of its qualified name.
        name: Seq<char>,
        /// Its attributes in the order in which it stores them: prefix, namespace,
        /// local name and value of each.
        attrs: Seq<(Option<Seq<char>>, Seq<char>, Seq<char>, Seq<char>)>,
        /// For each name, the value that looking up the attribute of that name (without
        /// prefix or namespace) gives, where the lookup finds one.
        attr_values: Map<Seq<char>, Seq<char>>,
    },
}

/// One node of a document: its kind and its links to its first child and its next sibling.
pub struct NodeInfo {
    pub kind: NodeKind,
    pub first_child: Option<NodeId>,
    pub next_sibling: Option<NodeId>,
}

/// The nodes of a document, by identity.
pub uninterp spec fn html_nodes(doc: Html) -> Map<NodeId, NodeInfo>;

/// The nodes of the document that parsing `source` as an HTML fragment gives.
pub uninterp spec fn fragment_nodes(source: Seq<char>) -> Map<NodeId, NodeInfo>;

/// The first element, in the document's node order, that the CSS selector `selector`
/// matches in a document with the nodes `nodes`; `None` where `selector` is no valid selector.
pub uninterp spec fn css_first_match(nodes: Map<NodeId, NodeInfo>, selector: Seq<char>) -> Option<
    Option<NodeId>,
>;

/// The kind of node `id`, where the document has such a node.
pub open spec fn kind_of(nodes: Map<NodeId, NodeInfo>, id: NodeId) -> Option<NodeKind> {
    if nodes.contains_key(id) {
        Some(nodes[id].kind)
    } else {
        None
    }
}

/// The first child of node `id`, if it has one.
pub open spec fn first_child(nodes: Map<NodeId, NodeInfo>, id: NodeId) -> Option<NodeId> {
    if nodes.contains_key(id) {
        nodes[id].first_child
    } else {
        None
    }
}

/// The next sibling of node `id`, if it has one.
pub open spec fn next_sibling(nodes: Map<NodeId, NodeInfo>, id: NodeId) -> Option<NodeId> {
    if nodes.contains_key(id) {
        nodes[id].next_sibling
    } else {
        None
    }
}

/// The local name of node `id` where it is an element.
pub open spec fn element_name(nodes: Map<NodeId, NodeInfo>, id: NodeId) -> Option<Seq<char>> {
    match kind_of(nodes, id) {
        Some(NodeKind::Element { name, .. }) => Some(name),
        _ => None,
    }
}

/// The text of node `id` where it is a text node.
pub open spec fn text_content(nodes: Map<NodeId, NodeInfo>, id: NodeId) -> Option<Seq<char>> {
    match kind_of(nodes, id) {
        Some(NodeKind::Text(t)) => Some(t),
        _ => None,
    }
}

/// The value that looking up attribute `attr` (without prefix or namespace) of node `id`
/// gives, where it is an element and the lookup finds one.
pub open spec fn attribute(nodes: Map<NodeId, NodeInfo>, id: NodeId, attr: Seq<char>) -> Option<
    Seq<char>,
> {
    match kind_of(nodes, id) {
        Some(NodeKind::Element { attr_values, .. }) => if attr_values.contains_key(attr) {
            Some(attr_values[attr])
        } else {
            None
        },
        _ => None,
    }
}

/// The view of an optional string.
pub open spec fn opt_view(s: Option<String>) -> Option<Seq<char>> {
    match s {
        Some(t) => Some(t@),
        None => None,
    }
}

/// Parses `source` as an HTML fragment (`scraper::Html::parse_fragment`). The nodes of the
/// result are those that the name `fragment_nodes` gives for `source`.
#[verifier::external_body]
pub(crate) fn parse_fragment(source: &str) -> (doc: Html)
    ensures
        html_nodes(doc) == fragment_nodes(source@),
{
    Html::parse_fragment(source)
}

/// Parses `selector` as a CSS selector (`scraper::Selector::parse`) and gives the first
/// element of `doc` that it matches (`Html::select(..).next()`): an error where the
/// selector does not parse, `None` where nothing matches. What that is, is named by
/// `css_first_match`; the contract states that the result is that name's, and that the
/// type selector `main` parses.
#[verifier::external_body]
pub(crate) fn select_first(doc: &Html, selector: &str) -> (r: Result<Option<NodeId>, ()>)
    ensures
        r == (match css_first_match(html_nodes(*doc), selector@) {
            Some(m) => Ok::<Option<NodeId>, ()>(m),
            None => Err(()),
        }),
        selector@ == "main"@ ==> r is Ok,
{
    let sel = scraper::Selector::parse(selector).map_err(|_| ())?;
    Ok(doc.select(&sel).next().map(|e| e.id()))
}

/// Whether `doc` has the node `id` (`Tree::get(id).is_some()`).
#[verifier::external_body]
pub(crate) fn has_node(doc: &Html, id: NodeId) -> (r: bool)
    ensures
        r == html_nodes(*doc).contains_key(id),
{
    doc.tree.get(id).is_some()
}

/// The first child of node `id` (`NodeRef::first_child`).
#[verifier::external_body]
pub(crate) fn first_child_of(doc: &Html, id: NodeId) -> (r: Option<NodeId>)
    ensures
        r == first_child(html_nodes(*doc), id),
{
    doc.tree.get(id).and_then(|n| n.first_child()).map(|n| n.id())
}

/// The next sibling of node `id` (`NodeRef::next_sibling`).
#[verifier::external_body]
pub(crate) fn next_sibling_of(doc: &Html, id: NodeId) -> (r: Option<NodeId>)
    ensures
        r == next_sibling(html_nodes(*doc), id),
{
    doc.tree.get(id).and_then(|n| n.next_sibling()).map(|n| n.id())
}

/// The local name of node `id` where it is an element (`Node::as_element`, `Element::name`).
#[verifier::external_body]
pub(crate) fn element_name_of(doc: &Html, id: NodeId) -> (r: Option<String>)
    ensures
        opt_view(r) == element_name(html_nodes(*doc), id),
{
    doc.tree.get(id).and_then(|n| n.value().as_element()).map(|e| e.name().to_string())
}

/// The text of node `id` where it is a text node (`Node::as_text`).
#[verifier::external_body]
pub(crate) fn text_of(doc: &Html, id: NodeId) -> (r: Option<String>)
    ensures
        opt_view(r) == text_content(html_nodes(*doc), id),
{
    doc.tree.get(id).and_then(|n| n.value().as_text()).map(|t| t.to_string())
}

/// The value of attribute `attr` of node `id` where it is an element (`Element::attr`).
#[verifier::external_body]
pub(crate) fn attribute_of(doc: &Html, id: NodeId, attr: &str) -> (r: Option<String>)
    ensures
        opt_view(r) == attribute(html_nodes(*doc), id, attr@),
{
    doc.tree.get(id).and_then(|n| n.value().as_element()).and_then(|e| e.attr(attr)).map(
        |v| v.to_string(),
    )
}

} // verus!
