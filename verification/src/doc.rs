//! Document nodes and traversal events.
//!
//! A parsed Markdown document is consumed as a flat sequence of enter/exit
//! events over its nodes, in pre-order: every node is seen once on the way
//! down and once on the way up. Only the node kinds that the renderer reacts
//! to are distinguished; everything else is `Other`, which is still traversed
//! so that enter/exit pairs stay symmetric.

use vstd::prelude::*;

verus! {

/// A document node, reduced to what rendering needs.
#[derive(Debug, Clone, PartialEq)]
pub enum MdNode {
    /// A literal text run.
    Text(String),
    /// Bold emphasis.
    Strong,
    /// Italic emphasis.
    Emph,
    /// Strikethrough emphasis.
    Strikethrough,
    /// A heading with its tier, 1 (largest) through 6 (smallest).
    Heading(u8),
    /// An inline image with its source URL.
    Image(String),
    /// A paragraph block.
    Paragraph,
    /// A hard line break.
    LineBreak,
    /// A soft line break.
    SoftBreak,
    /// Any node kind the renderer does not react to.
    Other,
}

/// One traversal event: a node is entered before its children and exited
/// after them.
#[derive(Debug, Clone, PartialEq)]
pub enum MdEvent {
    Enter(MdNode),
    Exit(MdNode),
}

/// An inline emphasis modifier carried by styled text.
#[derive(Debug, Clone, Copy, PartialEq, Eq, Structural)]
pub enum Modifier {
    Bold,
    Italic,
    Strikethrough,
}

/// The modifier a node kind switches on while it is open, if any.
pub open spec fn modifier_of_spec(n: MdNode) -> Option<Modifier> {
    match n {
        MdNode::Strong => Some(Modifier::Bold),
        MdNode::Emph => Some(Modifier::Italic),
        MdNode::Strikethrough => Some(Modifier::Strikethrough),
        _ => None,
    }
}

/// Map a node kind to the emphasis modifier it carries, if any.
pub fn modifier_of(n: &MdNode) -> (r: Option<Modifier>)
    ensures
        r == modifier_of_spec(*n),
{
    match n {
        MdNode::Strong => Some(Modifier::Bold),
        MdNode::Emph => Some(Modifier::Italic),
        MdNode::Strikethrough => Some(Modifier::Strikethrough),
        _ => None,
    }
}

} // verus!
