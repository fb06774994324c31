use mdview::doc::{MdEvent, MdNode};
use mdview::render::{process_events, RenderUnit};

fn exit_text(s: &str) -> MdEvent {
    MdEvent::Exit(MdNode::Text(s.to_string()))
}

#[test]
fn nested_emphasis_styles_match_ancestors() {
    let events = vec![
        MdEvent::Enter(MdNode::Paragraph),
        MdEvent::Enter(MdNode::Strong),
        MdEvent::Enter(MdNode::Text("both".to_string())),
        exit_text("both"),
        MdEvent::Enter(MdNode::Emph),
        MdEvent::Enter(MdNode::Text("all".to_string())),
        exit_text("all"),
        MdEvent::Exit(MdNode::Emph),
        MdEvent::Exit(MdNode::Strong),
        MdEvent::Enter(MdNode::Text("plain".to_string())),
        exit_text("plain"),
        MdEvent::Exit(MdNode::Paragraph),
    ];
    let units = process_events(&events);
    assert_eq!(units.len(), 1);
    match &units[0] {
        RenderUnit::TextBlock { lines } => {
            let spans = &lines[0].spans;
            assert_eq!(spans.len(), 3);
            assert_eq!(spans[0].text, "both");
            assert!(spans[0].bold && !spans[0].italic && !spans[0].strike);
            assert_eq!(spans[1].text, "all");
            assert!(spans[1].bold && spans[1].italic && !spans[1].strike);
            assert_eq!(spans[2].text, "plain");
            assert!(!spans[2].bold && !spans[2].italic && !spans[2].strike);
        }
        other => panic!("expected a text block, got {:?}", other),
    }
}

#[test]
fn strikethrough_nests_like_other_modifiers() {
    let events = vec![
        MdEvent::Enter(MdNode::Paragraph),
        MdEvent::Enter(MdNode::Strikethrough),
        exit_text("cut"),
        MdEvent::Exit(MdNode::Strikethrough),
        MdEvent::Exit(MdNode::Paragraph),
    ];
    let units = process_events(&events);
    match &units[0] {
        RenderUnit::TextBlock { lines } => {
            let spans = &lines[0].spans;
            assert!(spans[0].strike && !spans[0].bold && !spans[0].italic);
        }
        other => panic!("expected a text block, got {:?}", other),
    }
}

#[test]
fn stray_exit_is_absorbed() {
    let events = vec![
        MdEvent::Exit(MdNode::Strong),
        exit_text("still plain"),
        MdEvent::Exit(MdNode::Paragraph),
    ];
    let units = process_events(&events);
    match &units[0] {
        RenderUnit::TextBlock { lines } => {
            let spans = &lines[0].spans;
            assert!(!spans[0].bold && !spans[0].italic && !spans[0].strike);
        }
        other => panic!("expected a text block, got {:?}", other),
    }
}

#[test]
fn heading_collects_spans_and_clears_pending_text() {
    let events = vec![
        MdEvent::Enter(MdNode::Heading(3)),
        MdEvent::Enter(MdNode::Strong),
        exit_text("big"),
        MdEvent::Exit(MdNode::Strong),
        exit_text(" news"),
        MdEvent::Exit(MdNode::Heading(3)),
        MdEvent::Enter(MdNode::Paragraph),
        exit_text("after"),
        MdEvent::Exit(MdNode::Paragraph),
    ];
    let units = process_events(&events);
    assert_eq!(units.len(), 2);
    match &units[0] {
        RenderUnit::Heading { spans, tier } => {
            assert_eq!(*tier, 3);
            assert_eq!(spans.len(), 2);
            assert_eq!(spans[0].text, "big");
            assert_eq!(spans[1].text, " news");
        }
        other => panic!("expected a heading, got {:?}", other),
    }
    match &units[1] {
        RenderUnit::TextBlock { lines } => {
            assert_eq!(lines[0].spans.len(), 1);
            assert_eq!(lines[0].spans[0].text, "after");
        }
        other => panic!("expected a text block, got {:?}", other),
    }
}
