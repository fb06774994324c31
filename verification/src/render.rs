//! The executable rendering pipeline: traversal events in, renderable units
//! out. The result is pinned to the mathematical fold in `model`, so every
//! law proved over the fold holds of what this code emits.

use vstd::prelude::*;
use crate::doc::{MdNode, MdEvent};
use crate::doc::modifier_of;
use crate::model::{SpanV, UnitV, TraceV, trace_init, step, run, lemma_run_snoc, unit_height_spec};
use crate::parse::{parse_events, md_events_of};
use crate::style::StyleState;

verus! {

/// A styled text fragment ready for the terminal.
#[derive(Debug, Clone, PartialEq)]
pub struct Span {
    pub text: String,
    pub bold: bool,
    pub italic: bool,
    pub strike: bool,
}

impl View for Span {
    type V = SpanV;

    open spec fn view(&self) -> SpanV {
        SpanV { text: self.text@, bold: self.bold, italic: self.italic, strike: self.strike }
    }
}

/// One terminal line of styled spans.
#[derive(Debug, Clone, PartialEq)]
pub struct TextLine {
    pub spans: Vec<Span>,
}

impl View for TextLine {
    type V = Seq<SpanV>;

    open spec fn view(&self) -> Seq<SpanV> {
        spans_view(self.spans@)
    }
}

/// A renderable unit with a height in cell rows, ready for packing.
#[derive(Debug, Clone, PartialEq)]
pub enum RenderUnit {
    /// Styled text lines; height is the number of lines.
    TextBlock { lines: Vec<TextLine> },
    /// A heading to be rasterized from its spans' literal text at the given
    /// tier; height is always two rows.
    Heading { spans: Vec<Span>, tier: u8 },
    /// An inline image by URL; height is always ten rows.
    Image { url: String },
}

impl View for RenderUnit {
    type V = UnitV;

    open spec fn view(&self) -> UnitV {
        match self {
            RenderUnit::TextBlock { lines } => UnitV::TextBlock { lines: lines_view(lines@) },
            RenderUnit::Heading { spans, tier } => UnitV::Heading {
                spans: spans_view(spans@),
                tier: *tier,
            },
            RenderUnit::Image { url } => UnitV::Image { url: url@ },
        }
    }
}

/// The view of a span vector.
pub open spec fn spans_view(s: Seq<Span>) -> Seq<SpanV> {
    s.map_values(|x: Span| x@)
}

/// The view of a line vector.
pub open spec fn lines_view(s: Seq<TextLine>) -> Seq<Seq<SpanV>> {
    s.map_values(|x: TextLine| x@)
}

/// The view of a unit vector.
pub open spec fn units_view(s: Seq<RenderUnit>) -> Seq<UnitV> {
    s.map_values(|x: RenderUnit| x@)
}

proof fn lemma_spans_view_push(s: Seq<Span>, x: Span)
    ensures
        spans_view(s.push(x)) =~= spans_view(s).push(x@),
{
}

proof fn lemma_lines_view_push(s: Seq<TextLine>, x: TextLine)
    ensures
        lines_view(s.push(x)) =~= lines_view(s).push(x@),
{
}

proof fn lemma_units_view_push(s: Seq<RenderUnit>, x: RenderUnit)
    ensures
        units_view(s.push(x)) =~= units_view(s).push(x@),
{
}

impl RenderUnit {
    /// The unit's height in terminal cell rows.
    pub fn height(&self) -> (r: u16)
        requires
            unit_height_spec(self@) <= u16::MAX,
        ensures
            r == unit_height_spec(self@),
    {
        match self {
            RenderUnit::TextBlock { lines } => {
                assert(lines_view(lines@).len() == lines@.len());
                lines.len() as u16
            },
            RenderUnit::Heading { .. } => 2,
            RenderUnit::Image { .. } => 10,
        }
    }
}

/// The heights of a unit sequence, in order.
pub fn unit_heights(units: &Vec<RenderUnit>) -> (r: Vec<u16>)
    requires
        forall|i: int| 0 <= i < units@.len() ==> unit_height_spec(#[trigger] units@[i]@) <= u16::MAX,
    ensures
        r@.len() == units@.len(),
        forall|i: int| 0 <= i < r@.len() ==> r@[i] == unit_height_spec(#[trigger] units@[i]@),
{
    let mut heights: Vec<u16> = Vec::new();
    let mut i: usize = 0;
    while i < units.len()
        invariant
            0 <= i <= units@.len(),
            heights@.len() == i,
            forall|i: int| 0 <= i < units@.len() ==> unit_height_spec(#[trigger] units@[i]@) <= u16::MAX,
            forall|j: int| 0 <= j < i ==> heights@[j] == unit_height_spec(#[trigger] units@[j]@),
        decreases units@.len() - i,
    {
        let h = units[i].height();
        heights.push(h);
        i = i + 1;
    }
    heights
}

/// Turn a whole event stream into renderable units, in document order.
///
/// The result is exactly the unit sequence of the model fold `run` from the
/// initial state: spans are emitted under the style active at their text
/// node's exit, paragraphs flush their line plus a blank spacing line, line
/// breaks flush immediately, headings and images flush their own units.
pub fn process_events(events: &Vec<MdEvent>) -> (units: Vec<RenderUnit>)
    ensures
        units_view(units@) == run(trace_init(), events@).units,
{
    let mut style = StyleState::new();
    let mut spans: Vec<Span> = Vec::new();
    let mut lines: Vec<TextLine> = Vec::new();
    let mut units: Vec<RenderUnit> = Vec::new();
    let mut i: usize = 0;
    while i < events.len()
        invariant
            0 <= i <= events@.len(),
            style@.bold + style@.italic + style@.strike <= i,
            ({
                let t = run(trace_init(), events@.take(i as int));
                &&& style@ == t.style
                &&& spans_view(spans@) == t.spans
                &&& lines_view(lines@) == t.lines
                &&& units_view(units@) == t.units
            }),
        decreases events@.len() - i,
    {
        let ghost t = run(trace_init(), events@.take(i as int));
        proof {
            assert(events@.take(i as int + 1) =~= events@.take(i as int).push(events@[i as int]));
            lemma_run_snoc(trace_init(), events@.take(i as int), events@[i as int]);
        }
        let ev = &events[i];
        match ev {
            MdEvent::Enter(n) => {
                if let Some(m) = modifier_of(n) {
                    style.push(m);
                }
            },
            MdEvent::Exit(n) => {
                match n {
                    MdNode::Text(lit) => {
                        let sp = Span {
                            text: lit.clone(),
                            bold: style.bold_active(),
                            italic: style.italic_active(),
                            strike: style.strike_active(),
                        };
                        proof {
                            lemma_spans_view_push(spans@, sp);
                        }
                        spans.push(sp);
                    },
                    MdNode::Heading(tier) => {
                        let unit = RenderUnit::Heading { spans, tier: *tier };
                        proof {
                            lemma_units_view_push(units@, unit);
                        }
                        units.push(unit);
                        spans = Vec::new();
                        lines = Vec::new();
                        proof {
                            assert(spans_view(spans@) =~= Seq::<SpanV>::empty());
                            assert(lines_view(lines@) =~= Seq::<Seq<SpanV>>::empty());
                        }
                    },
                    MdNode::Image(url) => {
                        let unit = RenderUnit::Image { url: url.clone() };
                        proof {
                            lemma_units_view_push(units@, unit);
                        }
                        units.push(unit);
                        spans = Vec::new();
                        lines = Vec::new();
                        proof {
                            assert(spans_view(spans@) =~= Seq::<SpanV>::empty());
                            assert(lines_view(lines@) =~= Seq::<Seq<SpanV>>::empty());
                        }
                    },
                    MdNode::Paragraph => {
                        let closed = TextLine { spans };
                        proof {
                            lemma_lines_view_push(lines@, closed);
                        }
                        lines.push(closed);
                        let blank = TextLine { spans: Vec::new() };
                        proof {
                            assert(blank@ =~= Seq::<SpanV>::empty());
                            lemma_lines_view_push(lines@, blank);
                        }
                        lines.push(blank);
                        let unit = RenderUnit::TextBlock { lines };
                        proof {
                            lemma_units_view_push(units@, unit);
                        }
                        units.push(unit);
                        spans = Vec::new();
                        lines = Vec::new();
                        proof {
                            assert(spans_view(spans@) =~= Seq::<SpanV>::empty());
                            assert(lines_view(lines@) =~= Seq::<Seq<SpanV>>::empty());
                        }
                    },
                    MdNode::LineBreak | MdNode::SoftBreak => {
                        let closed = TextLine { spans };
                        proof {
                            lemma_lines_view_push(lines@, closed);
                        }
                        lines.push(closed);
                        let unit = RenderUnit::TextBlock { lines };
                        proof {
                            lemma_units_view_push(units@, unit);
                        }
                        units.push(unit);
                        spans = Vec::new();
                        lines = Vec::new();
                        proof {
                            assert(spans_view(spans@) =~= Seq::<SpanV>::empty());
                            assert(lines_view(lines@) =~= Seq::<Seq<SpanV>>::empty());
                        }
                    },
                    _ => {
                        if let Some(m) = modifier_of(n) {
                            style.pop(m);
                        }
                    },
                }
            },
        }
        i = i + 1;
    }
    proof {
        assert(events@.take(events@.len() as int) =~= events@);
    }
    units
}

/// Parse a Markdown document and produce its renderable units, in document
/// order: exactly the unit sequence of the model fold over the document's
/// traversal events.
pub fn render_markdown(text: &str) -> (units: Vec<RenderUnit>)
    ensures
        units_view(units@) == run(trace_init(), md_events_of(text@)).units,
{
    let events = parse_events(text);
    process_events(&events)
}

} // verus!
