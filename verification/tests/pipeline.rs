use mdview::render::{render_markdown, RenderUnit};

#[test]
fn scenario_plain_paragraph() {
    let units = render_markdown("Hello **world**");
    assert_eq!(units.len(), 1);
    match &units[0] {
        RenderUnit::TextBlock { lines } => {
            assert_eq!(lines.len(), 2);
            let spans = &lines[0].spans;
            assert_eq!(spans.len(), 2);
            assert_eq!(spans[0].text, "Hello ");
            assert!(!spans[0].bold);
            assert!(!spans[0].italic);
            assert!(!spans[0].strike);
            assert_eq!(spans[1].text, "world");
            assert!(spans[1].bold);
            assert!(!spans[1].italic);
            assert!(!spans[1].strike);
            assert_eq!(lines[1].spans.len(), 0);
        }
        other => panic!("expected a text block, got {:?}", other),
    }
    assert_eq!(units[0].height(), 2);
}

#[test]
fn heading_unit_has_tier_and_fixed_height() {
    let units = render_markdown("# Title");
    assert_eq!(units.len(), 1);
    match &units[0] {
        RenderUnit::Heading { spans, tier } => {
            assert_eq!(*tier, 1);
            assert_eq!(spans.len(), 1);
            assert_eq!(spans[0].text, "Title");
        }
        other => panic!("expected a heading, got {:?}", other),
    }
    assert_eq!(units[0].height(), 2);
}

#[test]
fn image_unit_keeps_url_and_drops_alt_text() {
    let units = render_markdown("![alt](pic.png)");
    assert_eq!(units.len(), 2);
    match &units[0] {
        RenderUnit::Image { url } => assert_eq!(url, "pic.png"),
        other => panic!("expected an image, got {:?}", other),
    }
    assert_eq!(units[0].height(), 10);
    match &units[1] {
        RenderUnit::TextBlock { lines } => {
            assert_eq!(lines.len(), 2);
            assert_eq!(lines[0].spans.len(), 0);
            assert_eq!(lines[1].spans.len(), 0);
        }
        other => panic!("expected a text block, got {:?}", other),
    }
}

#[test]
fn soft_break_flushes_incrementally() {
    let units = render_markdown("foo\nbar");
    assert_eq!(units.len(), 2);
    match &units[0] {
        RenderUnit::TextBlock { lines } => {
            assert_eq!(lines.len(), 1);
            assert_eq!(lines[0].spans.len(), 1);
            assert_eq!(lines[0].spans[0].text, "foo");
        }
        other => panic!("expected a text block, got {:?}", other),
    }
    match &units[1] {
        RenderUnit::TextBlock { lines } => {
            assert_eq!(lines.len(), 2);
            assert_eq!(lines[0].spans.len(), 1);
            assert_eq!(lines[0].spans[0].text, "bar");
            assert_eq!(lines[1].spans.len(), 0);
        }
        other => panic!("expected a text block, got {:?}", other),
    }
}

#[test]
fn flush_keeps_all_paragraph_text_in_order() {
    let units = render_markdown("one *two* three\n\nfour");
    let mut collected = String::new();
    for u in &units {
        if let RenderUnit::TextBlock { lines } = u {
            for line in lines {
                for s in &line.spans {
                    collected.push_str(&s.text);
                }
            }
        }
    }
    assert_eq!(collected, "one two threefour");
}
