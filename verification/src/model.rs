//! The mathematical model of one rendering frame: a fold over the traversal
//! events that accumulates styled spans, groups them into lines, and flushes
//! blocks into renderable units, mirroring what the executable traversal
//! does. The laws about style nesting and flush completeness are stated and
//! proved over this fold.

use vstd::prelude::*;
use crate::doc::{MdNode, MdEvent, Modifier, modifier_of_spec};
use crate::style::{StyleV, style_init, style_push, style_pop};

verus! {

/// A styled text fragment: the literal characters and the emphasis set that
/// was active when the fragment was emitted.
pub ghost struct SpanV {
    pub text: Seq<char>,
    pub bold: bool,
    pub italic: bool,
    pub strike: bool,
}

/// A renderable unit: a block's fully prepared output with a known height.
pub ghost enum UnitV {
    /// Styled text lines from a paragraph or a line break flush.
    TextBlock { lines: Seq<Seq<SpanV>> },
    /// A heading to be rasterized: its spans (style is ignored when drawing)
    /// and its tier, 1 through 6.
    Heading { spans: Seq<SpanV>, tier: u8 },
    /// An inline image by its source URL.
    Image { url: Seq<char> },
}

/// The height of a unit in terminal cell rows: a text block is as tall as
/// its line count, a heading image always spans two rows, an inline image
/// always ten.
pub open spec fn unit_height_spec(u: UnitV) -> int {
    match u {
        UnitV::TextBlock { lines } => lines.len() as int,
        UnitV::Heading { .. } => 2,
        UnitV::Image { .. } => 10,
    }
}

/// The whole traversal state: active style, spans of the open line, lines of
/// the open block, and the units flushed so far.
pub ghost struct TraceV {
    pub style: StyleV,
    pub spans: Seq<SpanV>,
    pub lines: Seq<Seq<SpanV>>,
    pub units: Seq<UnitV>,
}

/// The state at the start of a frame: nothing open, nothing flushed.
pub open spec fn trace_init() -> TraceV {
    TraceV {
        style: style_init(),
        spans: Seq::empty(),
        lines: Seq::empty(),
        units: Seq::empty(),
    }
}

/// The span emitted for a text literal under a given style.
pub open spec fn span_of(style: StyleV, text: Seq<char>) -> SpanV {
    SpanV { text, bold: style.bold > 0, italic: style.italic > 0, strike: style.strike > 0 }
}

/// One traversal step.
///
/// Entering an emphasis node pushes its modifier. Exiting a text node emits
/// a span under the current style; exiting a heading or image flushes a unit
/// and clears the accumulators; exiting a paragraph closes the current line,
/// appends a blank spacing line and flushes a text block; exiting a line
/// break closes the current line and flushes immediately without spacing;
/// exiting an emphasis node pops its modifier; every other event is inert.
pub open spec fn step(t: TraceV, ev: MdEvent) -> TraceV {
    match ev {
        MdEvent::Enter(n) => match modifier_of_spec(n) {
            Some(m) => TraceV { style: style_push(t.style, m), ..t },
            None => t,
        },
        MdEvent::Exit(n) => match n {
            MdNode::Text(lit) => TraceV { spans: t.spans.push(span_of(t.style, lit@)), ..t },
            MdNode::Heading(tier) => TraceV {
                units: t.units.push(UnitV::Heading { spans: t.spans, tier }),
                spans: Seq::empty(),
                lines: Seq::empty(),
                ..t
            },
            MdNode::Image(url) => TraceV {
                units: t.units.push(UnitV::Image { url: url@ }),
                spans: Seq::empty(),
                lines: Seq::empty(),
                ..t
            },
            MdNode::Paragraph => TraceV {
                units: t.units.push(
                    UnitV::TextBlock { lines: t.lines.push(t.spans).push(Seq::empty()) },
                ),
                spans: Seq::empty(),
                lines: Seq::empty(),
                ..t
            },
            MdNode::LineBreak => TraceV {
                units: t.units.push(UnitV::TextBlock { lines: t.lines.push(t.spans) }),
                spans: Seq::empty(),
                lines: Seq::empty(),
                ..t
            },
            MdNode::SoftBreak => TraceV {
                units: t.units.push(UnitV::TextBlock { lines: t.lines.push(t.spans) }),
                spans: Seq::empty(),
                lines: Seq::empty(),
                ..t
            },
            _ => match modifier_of_spec(n) {
                Some(m) => TraceV { style: style_pop(t.style, m), ..t },
                None => t,
            },
        },
    }
}

/// The traversal fold over a whole event sequence.
pub open spec fn run(t: TraceV, evs: Seq<MdEvent>) -> TraceV
    decreases evs.len(),
{
    if evs.len() == 0 {
        t
    } else {
        run(step(t, evs.first()), evs.drop_first())
    }
}

/// Folding one more event at the end is one more step.
pub proof fn lemma_run_snoc(t: TraceV, evs: Seq<MdEvent>, ev: MdEvent)
    ensures
        run(t, evs.push(ev)) == step(run(t, evs), ev),
    decreases evs.len(),
{
    if evs.len() == 0 {
        assert(evs.push(ev).first() == ev);
        assert(evs.push(ev).drop_first() =~= Seq::<MdEvent>::empty());
        assert(run(t, evs.push(ev)) == run(step(t, ev), Seq::<MdEvent>::empty()));
        assert(run(step(t, ev), Seq::<MdEvent>::empty()) == step(t, ev));
        assert(run(t, evs) == t);
    } else {
        assert(evs.push(ev).first() == evs.first());
        assert(evs.push(ev).drop_first() =~= evs.drop_first().push(ev));
        lemma_run_snoc(step(t, evs.first()), evs.drop_first(), ev);
        assert(run(t, evs.push(ev)) == run(step(t, evs.first()), evs.drop_first().push(ev)));
        assert(run(t, evs) == run(step(t, evs.first()), evs.drop_first()));
    }
}

/// How many events in the stream enter a node carrying the modifier `m`.
pub open spec fn mod_enters(evs: Seq<MdEvent>, m: Modifier) -> int
    decreases evs.len(),
{
    if evs.len() == 0 {
        0
    } else {
        mod_enters(evs.drop_last(), m) + match evs.last() {
            MdEvent::Enter(n) => if modifier_of_spec(n) == Some(m) {
                1int
            } else {
                0int
            },
            _ => 0int,
        }
    }
}

/// How many events in the stream exit a node carrying the modifier `m`.
pub open spec fn mod_exits(evs: Seq<MdEvent>, m: Modifier) -> int
    decreases evs.len(),
{
    if evs.len() == 0 {
        0
    } else {
        mod_exits(evs.drop_last(), m) + match evs.last() {
            MdEvent::Exit(n) => if modifier_of_spec(n) == Some(m) {
                1int
            } else {
                0int
            },
            _ => 0int,
        }
    }
}

/// An event stream is properly nested when no prefix exits an emphasis kind
/// more often than it has entered it — the shape every pre-order traversal
/// of a tree produces.
pub open spec fn properly_nested(evs: Seq<MdEvent>) -> bool {
    forall|i: int, m: Modifier|
        0 <= i <= evs.len() ==> #[trigger] mod_exits(evs.take(i), m) <= mod_enters(evs.take(i), m)
}

/// The nesting depth the style state records for one modifier.
pub open spec fn depth_of(s: StyleV, m: Modifier) -> nat {
    match m {
        Modifier::Bold => s.bold,
        Modifier::Italic => s.italic,
        Modifier::Strikethrough => s.strike,
    }
}

/// On a properly nested stream the style accumulator is exact: each
/// modifier's depth equals the number of its emphasis nodes entered and not
/// yet exited.
#[verifier::rlimit(50)]
pub proof fn lemma_depths_track_counts(evs: Seq<MdEvent>)
    requires
        properly_nested(evs),
    ensures
        forall|m: Modifier|
            #[trigger] depth_of(run(trace_init(), evs).style, m) == mod_enters(evs, m) - mod_exits(
                evs,
                m,
            ),
    decreases evs.len(),
{
    if evs.len() == 0 {
    } else {
        let evs0 = evs.drop_last();
        let e = evs.last();
        assert forall|i: int, m: Modifier| 0 <= i <= evs0.len() implies #[trigger] mod_exits(
            evs0.take(i),
            m,
        ) <= mod_enters(evs0.take(i), m) by {
            assert(evs0.take(i) =~= evs.take(i));
        }
        lemma_depths_track_counts(evs0);
        assert(evs0.push(e) =~= evs);
        lemma_run_snoc(trace_init(), evs0, e);
        let t0 = run(trace_init(), evs0);
        assert forall|m: Modifier|
            #[trigger] depth_of(run(trace_init(), evs).style, m) == mod_enters(evs, m) - mod_exits(
                evs,
                m,
            ) by {
            assert(evs.drop_last() == evs0);
            assert(run(trace_init(), evs) == step(t0, e));
            assert(depth_of(t0.style, m) == mod_enters(evs0, m) - mod_exits(evs0, m));
            match e {
                MdEvent::Enter(n) => {
                    assert(mod_exits(evs, m) == mod_exits(evs0, m));
                    if modifier_of_spec(n) == Some(m) {
                        assert(mod_enters(evs, m) == mod_enters(evs0, m) + 1);
                        assert(depth_of(step(t0, e).style, m) == depth_of(t0.style, m) + 1);
                    } else {
                        assert(mod_enters(evs, m) == mod_enters(evs0, m));
                        assert(depth_of(step(t0, e).style, m) == depth_of(t0.style, m));
                    }
                },
                MdEvent::Exit(n) => {
                    assert(mod_enters(evs, m) == mod_enters(evs0, m));
                    if modifier_of_spec(n) == Some(m) {
                        assert(evs.take(evs.len() as int) =~= evs);
                        assert(mod_exits(evs, m) <= mod_enters(evs, m));
                        assert(depth_of(t0.style, m) >= 1);
                        assert(mod_exits(evs, m) == mod_exits(evs0, m) + 1);
                        assert(depth_of(step(t0, e).style, m) == depth_of(t0.style, m) - 1);
                    } else {
                        assert(mod_exits(evs, m) == mod_exits(evs0, m));
                        assert(depth_of(step(t0, e).style, m) == depth_of(t0.style, m));
                    }
                },
            }
        }
    }
}

/// Style nesting: on a properly nested event stream, the text span emitted
/// at any traversal point carries exactly the modifiers of the emphasis
/// nodes still open around that point — those entered more often than
/// exited.
pub proof fn lemma_style_nesting(evs: Seq<MdEvent>, lit: String)
    requires
        properly_nested(evs),
    ensures
        ({
            let before = run(trace_init(), evs);
            let after = run(trace_init(), evs.push(MdEvent::Exit(MdNode::Text(lit))));
            &&& after.spans == before.spans.push(span_of(before.style, lit@))
            &&& after.spans.last().text == lit@
            &&& after.spans.last().bold == (mod_enters(evs, Modifier::Bold) > mod_exits(
                evs,
                Modifier::Bold,
            ))
            &&& after.spans.last().italic == (mod_enters(evs, Modifier::Italic) > mod_exits(
                evs,
                Modifier::Italic,
            ))
            &&& after.spans.last().strike == (mod_enters(evs, Modifier::Strikethrough) > mod_exits(
                evs,
                Modifier::Strikethrough,
            ))
        }),
{
    lemma_run_snoc(trace_init(), evs, MdEvent::Exit(MdNode::Text(lit)));
    lemma_depths_track_counts(evs);
    let before = run(trace_init(), evs);
    assert(depth_of(before.style, Modifier::Bold) == before.style.bold);
    assert(depth_of(before.style, Modifier::Italic) == before.style.italic);
    assert(depth_of(before.style, Modifier::Strikethrough) == before.style.strike);
}

/// Concatenation of a span sequence's literal text, in order.
pub open spec fn span_text(spans: Seq<SpanV>) -> Seq<char>
    decreases spans.len(),
{
    if spans.len() == 0 {
        Seq::empty()
    } else {
        span_text(spans.drop_last()) + spans.last().text
    }
}

/// Concatenation of the text of a sequence of lines.
pub open spec fn lines_text(lines: Seq<Seq<SpanV>>) -> Seq<char>
    decreases lines.len(),
{
    if lines.len() == 0 {
        Seq::empty()
    } else {
        lines_text(lines.drop_last()) + span_text(lines.last())
    }
}

/// The text a unit shows as styled terminal lines (empty for headings and
/// images, whose content is rasterized separately).
pub open spec fn unit_block_text(u: UnitV) -> Seq<char> {
    match u {
        UnitV::TextBlock { lines } => lines_text(lines),
        _ => Seq::empty(),
    }
}

/// The text a unit hands to the heading rasterizer.
pub open spec fn unit_heading_text(u: UnitV) -> Seq<char> {
    match u {
        UnitV::Heading { spans, .. } => span_text(spans),
        _ => Seq::empty(),
    }
}

/// All text shown as styled lines across a unit sequence, in order.
pub open spec fn blocks_text(units: Seq<UnitV>) -> Seq<char>
    decreases units.len(),
{
    if units.len() == 0 {
        Seq::empty()
    } else {
        blocks_text(units.drop_last()) + unit_block_text(units.last())
    }
}

/// All heading text across a unit sequence, in order.
pub open spec fn headings_text(units: Seq<UnitV>) -> Seq<char>
    decreases units.len(),
{
    if units.len() == 0 {
        Seq::empty()
    } else {
        headings_text(units.drop_last()) + unit_heading_text(units.last())
    }
}

/// Where each text literal of the document belongs: already flushed into
/// text blocks, already flushed into a heading, dropped by an image exit
/// (images discard surrounding span text), or still pending in the open
/// block.
pub ghost struct FlushV {
    pub blocks: Seq<char>,
    pub headings: Seq<char>,
    pub pending: Seq<char>,
}

/// Nothing flushed, nothing pending.
pub open spec fn flush_init() -> FlushV {
    FlushV { blocks: Seq::empty(), headings: Seq::empty(), pending: Seq::empty() }
}

/// The text-level meaning of one traversal event.
pub open spec fn flush_step(f: FlushV, ev: MdEvent) -> FlushV {
    match ev {
        MdEvent::Exit(n) => match n {
            MdNode::Text(lit) => FlushV { pending: f.pending + lit@, ..f },
            MdNode::Heading(_) => FlushV {
                headings: f.headings + f.pending,
                pending: Seq::empty(),
                ..f
            },
            MdNode::Image(_) => FlushV { pending: Seq::empty(), ..f },
            MdNode::Paragraph => FlushV {
                blocks: f.blocks + f.pending,
                pending: Seq::empty(),
                ..f
            },
            MdNode::LineBreak => FlushV {
                blocks: f.blocks + f.pending,
                pending: Seq::empty(),
                ..f
            },
            MdNode::SoftBreak => FlushV {
                blocks: f.blocks + f.pending,
                pending: Seq::empty(),
                ..f
            },
            _ => f,
        },
        _ => f,
    }
}

/// The text-level fold over a whole event sequence.
pub open spec fn flush_run(f: FlushV, evs: Seq<MdEvent>) -> FlushV
    decreases evs.len(),
{
    if evs.len() == 0 {
        f
    } else {
        flush_run(flush_step(f, evs.first()), evs.drop_first())
    }
}

proof fn lemma_flush_run_snoc(f: FlushV, evs: Seq<MdEvent>, ev: MdEvent)
    ensures
        flush_run(f, evs.push(ev)) == flush_step(flush_run(f, evs), ev),
    decreases evs.len(),
{
    if evs.len() == 0 {
        assert(evs.push(ev).first() == ev);
        assert(evs.push(ev).drop_first() =~= Seq::<MdEvent>::empty());
        assert(flush_run(f, evs.push(ev)) == flush_run(flush_step(f, ev), Seq::<MdEvent>::empty()));
    } else {
        assert(evs.push(ev).first() == evs.first());
        assert(evs.push(ev).drop_first() =~= evs.drop_first().push(ev));
        lemma_flush_run_snoc(flush_step(f, evs.first()), evs.drop_first(), ev);
        assert(flush_run(f, evs.push(ev)) == flush_run(
            flush_step(f, evs.first()),
            evs.drop_first().push(ev),
        ));
    }
}

/// Flush completeness: for every event stream, the text shown across all
/// flushed text blocks is exactly the text the paragraph and line-break
/// flushes collected, the text across all heading units is exactly the text
/// the heading flushes collected, the line accumulator is empty between
/// events, and whatever was not flushed is still pending in the open spans —
/// in document order, nothing lost and nothing duplicated.
pub proof fn lemma_flush_completeness(evs: Seq<MdEvent>)
    ensures
        ({
            let t = run(trace_init(), evs);
            let f = flush_run(flush_init(), evs);
            &&& blocks_text(t.units) == f.blocks
            &&& headings_text(t.units) == f.headings
            &&& t.lines == Seq::<Seq<SpanV>>::empty()
            &&& span_text(t.spans) == f.pending
        }),
    decreases evs.len(),
{
    if evs.len() == 0 {
    } else {
        let evs0 = evs.drop_last();
        let e = evs.last();
        lemma_flush_completeness(evs0);
        assert(evs0.push(e) =~= evs);
        lemma_run_snoc(trace_init(), evs0, e);
        lemma_flush_run_snoc(flush_init(), evs0, e);
        let t0 = run(trace_init(), evs0);
        let f0 = flush_run(flush_init(), evs0);
        let t = run(trace_init(), evs);
        let f = flush_run(flush_init(), evs);
        match e {
            MdEvent::Enter(n) => {},
            MdEvent::Exit(n) => match n {
                MdNode::Text(lit) => {
                    let sp = span_of(t0.style, lit@);
                    assert(t0.spans.push(sp).drop_last() =~= t0.spans);
                    assert(span_text(t.spans) == span_text(t0.spans) + lit@);
                },
                MdNode::Heading(tier) => {
                    let u = UnitV::Heading { spans: t0.spans, tier };
                    assert(t0.units.push(u).drop_last() =~= t0.units);
                    assert(blocks_text(t.units) =~= blocks_text(t0.units));
                    assert(headings_text(t.units) == headings_text(t0.units) + span_text(t0.spans));
                    assert(span_text(t.spans) =~= Seq::<char>::empty());
                },
                MdNode::Image(url) => {
                    let u = UnitV::Image { url: url@ };
                    assert(t0.units.push(u).drop_last() =~= t0.units);
                    assert(blocks_text(t.units) =~= blocks_text(t0.units));
                    assert(headings_text(t.units) =~= headings_text(t0.units));
                    assert(span_text(t.spans) =~= Seq::<char>::empty());
                },
                MdNode::Paragraph => {
                    let l1 = t0.lines.push(t0.spans);
                    let l2 = l1.push(Seq::<SpanV>::empty());
                    let u = UnitV::TextBlock { lines: l2 };
                    assert(t0.units.push(u).drop_last() =~= t0.units);
                    assert(l2.drop_last() =~= l1);
                    assert(l1.drop_last() =~= t0.lines);
                    assert(t0.lines =~= Seq::<Seq<SpanV>>::empty());
                    assert(l1.last() == t0.spans);
                    assert(lines_text(Seq::<Seq<SpanV>>::empty()) == Seq::<char>::empty());
                    assert(lines_text(l1) == lines_text(l1.drop_last()) + span_text(l1.last()));
                    assert(lines_text(l1) =~= Seq::<char>::empty() + span_text(t0.spans));
                    assert(lines_text(l1) =~= span_text(t0.spans));
                    assert(span_text(l2.last()) =~= Seq::<char>::empty());
                    assert(lines_text(l2) =~= lines_text(l1) + Seq::<char>::empty());
                    assert(lines_text(l2) =~= span_text(t0.spans));
                    assert(unit_block_text(u) == lines_text(l2));
                    assert(blocks_text(t.units) == blocks_text(t0.units) + span_text(t0.spans));
                    assert(headings_text(t.units) =~= headings_text(t0.units));
                    assert(span_text(t.spans) =~= Seq::<char>::empty());
                },
                MdNode::LineBreak => {
                    lemma_flush_break(t0, t, f0, f);
                },
                MdNode::SoftBreak => {
                    lemma_flush_break(t0, t, f0, f);
                },
                _ => {},
            },
        }
    }
}

/// The concatenation of every text literal exited in the stream, in
/// document order.
pub open spec fn literals_text(evs: Seq<MdEvent>) -> Seq<char>
    decreases evs.len(),
{
    if evs.len() == 0 {
        Seq::empty()
    } else {
        literals_text(evs.drop_last()) + match evs.last() {
            MdEvent::Exit(n) => match n {
                MdNode::Text(lit) => lit@,
                _ => Seq::<char>::empty(),
            },
            _ => Seq::<char>::empty(),
        }
    }
}

/// Whether an event flushes into rasterized content: a heading or image
/// exit, whose surrounding text does not stay in the styled text blocks.
pub open spec fn is_raster_flush(ev: MdEvent) -> bool {
    match ev {
        MdEvent::Exit(n) => match n {
            MdNode::Heading(_) => true,
            MdNode::Image(_) => true,
            _ => false,
        },
        _ => false,
    }
}

/// Text conservation: in a stream with no heading or image flushes, the
/// text flushed into blocks followed by the text still pending is exactly
/// the concatenation of all text literals, in document order — nothing is
/// lost and nothing duplicated.
pub proof fn lemma_text_conservation(evs: Seq<MdEvent>)
    requires
        forall|i: int| 0 <= i < evs.len() ==> !is_raster_flush(#[trigger] evs[i]),
    ensures
        ({
            let f = flush_run(flush_init(), evs);
            &&& f.headings == Seq::<char>::empty()
            &&& f.blocks + f.pending == literals_text(evs)
        }),
    decreases evs.len(),
{
    if evs.len() == 0 {
        assert(flush_init().blocks + flush_init().pending =~= Seq::<char>::empty());
    } else {
        let evs0 = evs.drop_last();
        let e = evs.last();
        assert(forall|i: int| 0 <= i < evs0.len() ==> !is_raster_flush(#[trigger] evs0[i]));
        lemma_text_conservation(evs0);
        assert(evs0.push(e) =~= evs);
        lemma_flush_run_snoc(flush_init(), evs0, e);
        let f0 = flush_run(flush_init(), evs0);
        let f = flush_run(flush_init(), evs);
        assert(!is_raster_flush(e));
        match e {
            MdEvent::Enter(n) => {
                assert(literals_text(evs) =~= literals_text(evs0));
                assert(f == f0);
            },
            MdEvent::Exit(n) => match n {
                MdNode::Text(lit) => {
                    assert(literals_text(evs) == literals_text(evs0) + lit@);
                    assert(f.blocks + (f0.pending + lit@) =~= (f0.blocks + f0.pending) + lit@);
                },
                _ => {
                    assert(literals_text(evs) =~= literals_text(evs0));
                    if f != f0 {
                        assert(f.blocks == f0.blocks + f0.pending);
                        assert(f.pending =~= Seq::<char>::empty());
                        assert((f0.blocks + f0.pending) + Seq::<char>::empty() =~= f0.blocks
                            + f0.pending);
                    }
                },
            },
        }
    }
}

/// Flush completeness without rasterized units: in a stream with no heading
/// or image flushes, the text across all flushed text blocks followed by
/// the text of the still-open spans is exactly the concatenation of all
/// text literals, in document order.
pub proof fn lemma_flush_completeness_no_raster(evs: Seq<MdEvent>)
    requires
        forall|i: int| 0 <= i < evs.len() ==> !is_raster_flush(#[trigger] evs[i]),
    ensures
        ({
            let t = run(trace_init(), evs);
            blocks_text(t.units) + span_text(t.spans) == literals_text(evs)
        }),
{
    lemma_flush_completeness(evs);
    lemma_text_conservation(evs);
}

/// The shared reasoning for a hard or soft line break flush.
proof fn lemma_flush_break(t0: TraceV, t: TraceV, f0: FlushV, f: FlushV)
    requires
        blocks_text(t0.units) == f0.blocks,
        headings_text(t0.units) == f0.headings,
        t0.lines == Seq::<Seq<SpanV>>::empty(),
        span_text(t0.spans) == f0.pending,
        t.units == t0.units.push(UnitV::TextBlock { lines: t0.lines.push(t0.spans) }),
        t.spans == Seq::<SpanV>::empty(),
        t.lines == Seq::<Seq<SpanV>>::empty(),
        f.blocks == f0.blocks + f0.pending,
        f.headings == f0.headings,
        f.pending == Seq::<char>::empty(),
    ensures
        blocks_text(t.units) == f.blocks,
        headings_text(t.units) == f.headings,
        t.lines == Seq::<Seq<SpanV>>::empty(),
        span_text(t.spans) == f.pending,
{
    let l1 = t0.lines.push(t0.spans);
    let u = UnitV::TextBlock { lines: l1 };
    assert(t0.units.push(u).drop_last() =~= t0.units);
    assert(l1.drop_last() =~= t0.lines);
    assert(l1.last() == t0.spans);
    assert(lines_text(Seq::<Seq<SpanV>>::empty()) == Seq::<char>::empty());
    assert(lines_text(l1) == lines_text(l1.drop_last()) + span_text(l1.last()));
    assert(lines_text(l1) =~= Seq::<char>::empty() + span_text(t0.spans));
    assert(lines_text(l1) =~= span_text(t0.spans));
    assert(unit_block_text(u) == lines_text(l1));
    assert(blocks_text(t.units) == blocks_text(t0.units) + span_text(t0.spans));
    assert(headings_text(t.units) =~= headings_text(t0.units));
    assert(span_text(t.spans) =~= Seq::<char>::empty());
}

} // verus!
