//! The parsing boundary: a Markdown text becomes the flat sequence of
//! enter/exit traversal events that the rendering pipeline consumes. The
//! parser itself is comrak, trusted here; everything downstream of the event
//! sequence is verified.

use vstd::prelude::*;
use crate::doc::{MdNode, MdEvent};

verus! {

#[verifier::external_type_specification]
#[verifier::external_body]
pub struct ExNodeValue(comrak::nodes::NodeValue);

/// The traversal events comrak produces for a document text; they depend on
/// the text alone.
pub uninterp spec fn md_events_of(text: Seq<char>) -> Seq<MdEvent>;

/// Relies on comrak::nodes::NodeValue: tells its variants apart, moving the
/// text literal, heading level or image URL across; every node kind the
/// renderer does not react to becomes `Other`.
#[verifier::external_body]
fn node_of(v: &comrak::nodes::NodeValue) -> MdNode {
    match v {
        comrak::nodes::NodeValue::Text(t) => MdNode::Text(t.to_string()),
        comrak::nodes::NodeValue::Strong => MdNode::Strong,
        comrak::nodes::NodeValue::Emph => MdNode::Emph,
        comrak::nodes::NodeValue::Strikethrough => MdNode::Strikethrough,
        comrak::nodes::NodeValue::Heading(h) => MdNode::Heading(h.level),
        comrak::nodes::NodeValue::Image(l) => MdNode::Image(l.url.clone()),
        comrak::nodes::NodeValue::Paragraph => MdNode::Paragraph,
        comrak::nodes::NodeValue::LineBreak => MdNode::LineBreak,
        comrak::nodes::NodeValue::SoftBreak => MdNode::SoftBreak,
        _ => MdNode::Other,
    }
}

/// Relies on comrak::parse_document and the arena tree's pre-order
/// `traverse`, which yields a start edge before each node's children and an
/// end edge after them; parsing is deterministic, so the event sequence is a
/// function of the document text alone.
#[verifier::external_body]
pub(crate) fn parse_events(text: &str) -> (r: Vec<MdEvent>)
    ensures
        r@ == md_events_of(text@),
{
    let arena = comrak::Arena::new();
    let root = comrak::parse_document(&arena, text, &comrak::Options::default());
    root.traverse().map(|edge| match edge {
        comrak::arena_tree::NodeEdge::Start(n) => MdEvent::Enter(node_of(&n.data.borrow().value)),
        comrak::arena_tree::NodeEdge::End(n) => MdEvent::Exit(node_of(&n.data.borrow().value)),
    }).collect()
}

} // verus!
