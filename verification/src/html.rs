//! HTML documents, read through `kuchikiki`: a document is parsed into a
//! tree of nodes, and nodes are asked for their matches, children, text,
//! attributes and tag.

use kuchikiki::traits::TendrilSink;
use vstd::prelude::*;
use crate::text::string_views;

verus! {

#[verifier::external_type_specification]
#[verifier::external_body]
pub struct ExNodeRef(kuchikiki::NodeRef);

/// The root of the tree that `kuchikiki` builds from an HTML text.
pub uninterp spec fn html_root(html: Seq<char>) -> kuchikiki::NodeRef;

/// The elements among a node and its descendants that match a selector
/// list, in tree order; none where the selector list is not valid.
pub uninterp spec fn node_matches(node: kuchikiki::NodeRef, selector: Seq<char>) -> Seq<
    kuchikiki::NodeRef,
>;

/// The children of a node, in order.
pub uninterp spec fn node_children(node: kuchikiki::NodeRef) -> Seq<kuchikiki::NodeRef>;

/// The text of a node: the texts of all text nodes of its subtree, one
/// after the other.
pub uninterp spec fn node_text(node: kuchikiki::NodeRef) -> Seq<char>;

/// The value of an attribute of an element; none for a node that is no
/// element or has no such attribute.
pub uninterp spec fn node_attribute(node: kuchikiki::NodeRef, name: Seq<char>) -> Option<Seq<char>>;

/// The tag of an element; none for a node that is no element.
pub uninterp spec fn node_tag(node: kuchikiki::NodeRef) -> Option<Seq<char>>;

/// The text is short enough for the parser: the parser keeps text in
/// buffers of at most `u32::MAX` bytes, and no character of the text makes
/// more than four bytes of any one of them.
pub open spec fn fits_parser(html: Seq<char>) -> bool {
    html.len() * 4 <= u32::MAX
}

/// `kuchikiki::parse_html`, fed the whole text at once: the root of the
/// document tree. The parser panics on a buffer of more than `u32::MAX`
/// bytes, so longer texts are left out.
#[verifier::external_body]
pub(crate) fn parse_document(html: &str) -> (r: kuchikiki::NodeRef)
    requires
        fits_parser(html@),
    ensures
        r == html_root(html@),
{
    kuchikiki::parse_html().one(html)
}

/// `NodeRef::select`: the elements among the node and its descendants that
/// match the selector list, in tree order, each as a node.
#[verifier::external_body]
pub(crate) fn select_all(node: &kuchikiki::NodeRef, selector: &str) -> (r: Vec<kuchikiki::NodeRef>)
    ensures
        r@ == node_matches(*node, selector@),
{
    match node.select(selector) {
        Ok(found) => found.map(|e| e.as_node().clone()).collect(),
        Err(()) => Vec::new(),
    }
}

/// `NodeRef::children`: the children of the node, in order.
#[verifier::external_body]
pub(crate) fn children_of(node: &kuchikiki::NodeRef) -> (r: Vec<kuchikiki::NodeRef>)
    ensures
        r@ == node_children(*node),
{
    node.children().collect()
}

/// `NodeRef::text_contents`: the text of the node's subtree.
#[verifier::external_body]
pub(crate) fn text_of(node: &kuchikiki::NodeRef) -> (r: String)
    ensures
        r@ == node_text(*node),
{
    node.text_contents()
}

/// `Attributes::get` on the attributes of an element: the value of the
/// attribute, where the node is an element that has it.
#[verifier::external_body]
pub(crate) fn attribute_of(node: &kuchikiki::NodeRef, name: &str) -> (r: Option<String>)
    ensures
        r.deep_view() == node_attribute(*node, name@),
{
    node.as_element().and_then(|e| e.attributes.borrow().get(name).map(|v| v.to_string()))
}

/// `Node::as_element` and the local name of the element: the tag of the
/// node, where it is an element.
#[verifier::external_body]
pub(crate) fn tag_of(node: &kuchikiki::NodeRef) -> (r: Option<String>)
    ensures
        r.deep_view() == node_tag(*node),
{
    node.as_element().map(|e| e.name.local.to_string())
}

/// The text of the first match of a selector below a node.
pub open spec fn first_text(node: kuchikiki::NodeRef, selector: Seq<char>) -> Option<Seq<char>> {
    if node_matches(node, selector).len() > 0 {
        Some(node_text(node_matches(node, selector)[0]))
    } else {
        None
    }
}

/// The texts of the nodes, in order.
pub open spec fn texts_of(nodes: Seq<kuchikiki::NodeRef>) -> Seq<Seq<char>> {
    nodes.map_values(|n: kuchikiki::NodeRef| node_text(n))
}

/// The values of the attribute `name` of those of the nodes that have it,
/// in order.
pub open spec fn attributes_of(nodes: Seq<kuchikiki::NodeRef>, name: Seq<char>) -> Seq<Seq<char>>
    decreases nodes.len(),
{
    if nodes.len() == 0 {
        seq![]
    } else {
        match node_attribute(nodes.last(), name) {
            Some(v) => attributes_of(nodes.drop_last(), name).push(v),
            None => attributes_of(nodes.drop_last(), name),
        }
    }
}

/// Reads the text of the first match of a selector below a node.
pub(crate) fn read_first_text(node: &kuchikiki::NodeRef, selector: &str) -> (r: Option<String>)
    ensures
        r.deep_view() == first_text(*node, selector@),
{
    let found = select_all(node, selector);
    if found.len() > 0 {
        Some(text_of(&found[0]))
    } else {
        None
    }
}

/// Reads the texts of all matches of a selector below a node.
pub(crate) fn read_texts(node: &kuchikiki::NodeRef, selector: &str) -> (r: Vec<String>)
    ensures
        string_views(r@) == texts_of(node_matches(*node, selector@)),
{
    let found = select_all(node, selector);
    let mut out: Vec<String> = Vec::new();
    let mut i: usize = 0;
    while i < found.len()
        invariant
            i <= found@.len(),
            out@.len() == i,
            forall|k: int| 0 <= k < i ==> (#[trigger] out@[k])@ == node_text(found@[k]),
        decreases found@.len() - i,
    {
        out.push(text_of(&found[i]));
        i += 1;
    }
    assert(string_views(out@) =~= texts_of(found@));
    out
}

/// Reads the values of an attribute off all matches of a selector below a
/// node; matches without the attribute are passed over.
pub(crate) fn read_attributes(node: &kuchikiki::NodeRef, selector: &str, name: &str) -> (r: Vec<String>)
    ensures
        string_views(r@) == attributes_of(node_matches(*node, selector@), name@),
{
    let found = select_all(node, selector);
    let mut out: Vec<String> = Vec::new();
    let mut i: usize = 0;
    assert(found@.take(0) =~= Seq::<kuchikiki::NodeRef>::empty());
    assert(string_views(out@) =~= Seq::<Seq<char>>::empty());
    while i < found.len()
        invariant
            i <= found@.len(),
            string_views(out@) == attributes_of(found@.take(i as int), name@),
        decreases found@.len() - i,
    {
        let ghost sofar = string_views(out@);
        assert(found@.take(i + 1).drop_last() =~= found@.take(i as int));
        assert(found@.take(i + 1).last() == found@[i as int]);
        match attribute_of(&found[i], name) {
            Some(v) => {
                out.push(v);
                assert(string_views(out@) =~= sofar.push(v@));
            },
            None => {},
        }
        i += 1;
    }
    assert(found@.take(found@.len() as int) =~= found@);
    out
}

} // verus!
