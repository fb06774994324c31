//! The inline style accumulator: a per-frame stack of active emphasis
//! modifiers, kept as one nesting counter per modifier. Entering an emphasis
//! node increments its counter, exiting decrements it; a modifier is active
//! while its counter is positive. Counters never go below zero, so a stray
//! exit on an unbalanced event stream is absorbed instead of corrupting the
//! remaining document.

use vstd::prelude::*;
use crate::doc::Modifier;

verus! {

/// The mathematical style state: one nesting depth per modifier.
pub ghost struct StyleV {
    pub bold: nat,
    pub italic: nat,
    pub strike: nat,
}

/// The empty style: no emphasis active.
pub open spec fn style_init() -> StyleV {
    StyleV { bold: 0, italic: 0, strike: 0 }
}

/// Entering an emphasis node: the modifier's depth grows by one.
pub open spec fn style_push(s: StyleV, m: Modifier) -> StyleV {
    match m {
        Modifier::Bold => StyleV { bold: s.bold + 1, ..s },
        Modifier::Italic => StyleV { italic: s.italic + 1, ..s },
        Modifier::Strikethrough => StyleV { strike: s.strike + 1, ..s },
    }
}

/// Exiting an emphasis node: the modifier's depth shrinks by one, never
/// below zero.
pub open spec fn style_pop(s: StyleV, m: Modifier) -> StyleV {
    match m {
        Modifier::Bold => StyleV { bold: if s.bold > 0 { (s.bold - 1) as nat } else { 0 }, ..s },
        Modifier::Italic => StyleV {
            italic: if s.italic > 0 { (s.italic - 1) as nat } else { 0 },
            ..s
        },
        Modifier::Strikethrough => StyleV {
            strike: if s.strike > 0 { (s.strike - 1) as nat } else { 0 },
            ..s
        },
    }
}

/// The executable style accumulator.
pub struct StyleState {
    pub bold: usize,
    pub italic: usize,
    pub strike: usize,
}

impl View for StyleState {
    type V = StyleV;

    open spec fn view(&self) -> StyleV {
        StyleV { bold: self.bold as nat, italic: self.italic as nat, strike: self.strike as nat }
    }
}

impl StyleState {
    /// A fresh accumulator with no active emphasis.
    pub fn new() -> (r: StyleState)
        ensures
            r@ == style_init(),
    {
        StyleState { bold: 0, italic: 0, strike: 0 }
    }

    /// Record that an emphasis node was entered.
    pub fn push(&mut self, m: Modifier)
        requires
            old(self)@.bold + old(self)@.italic + old(self)@.strike < usize::MAX,
        ensures
            final(self)@ == style_push(old(self)@, m),
    {
        match m {
            Modifier::Bold => self.bold = self.bold + 1,
            Modifier::Italic => self.italic = self.italic + 1,
            Modifier::Strikethrough => self.strike = self.strike + 1,
        }
    }

    /// Record that an emphasis node was exited.
    pub fn pop(&mut self, m: Modifier)
        ensures
            final(self)@ == style_pop(old(self)@, m),
    {
        match m {
            Modifier::Bold => if self.bold > 0 {
                self.bold = self.bold - 1;
            },
            Modifier::Italic => if self.italic > 0 {
                self.italic = self.italic - 1;
            },
            Modifier::Strikethrough => if self.strike > 0 {
                self.strike = self.strike - 1;
            },
        }
    }

    /// Whether bold is currently active.
    pub fn bold_active(&self) -> (r: bool)
        ensures
            r == (self@.bold > 0),
    {
        self.bold > 0
    }

    /// Whether italic is currently active.
    pub fn italic_active(&self) -> (r: bool)
        ensures
            r == (self@.italic > 0),
    {
        self.italic > 0
    }

    /// Whether strikethrough is currently active.
    pub fn strike_active(&self) -> (r: bool)
        ensures
            r == (self@.strike > 0),
    {
        self.strike > 0
    }
}

} // verus!
