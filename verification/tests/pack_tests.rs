use mdview::pack::{pack_heights, place_unit};
use mdview::render::{unit_heights, RenderUnit, Span, TextLine};

#[test]
fn scenario_viewport_overflow() {
    let heights: Vec<u16> = vec![5, 5, 5];
    let (placements, cursor) = pack_heights(&heights, 8);
    assert_eq!(cursor, 15);
    assert_eq!(placements.len(), 1);
    assert_eq!(placements[0].index, 0);
    assert_eq!(placements[0].y, 0);
    assert_eq!(placements[0].height, 5);
}

#[test]
fn cursor_is_sum_of_all_heights() {
    let heights: Vec<u16> = vec![1, 2, 3, 4, 100, 7];
    let (_, cursor) = pack_heights(&heights, 10);
    assert_eq!(cursor, 117);
}

#[test]
fn drawn_units_fit_strictly_in_remaining_space() {
    let heights: Vec<u16> = vec![3, 1, 4, 1, 5, 9, 2, 6];
    let viewport: u16 = 12;
    let (placements, _) = pack_heights(&heights, viewport);
    for p in &placements {
        assert!(p.y < viewport);
        assert!(viewport - p.y > p.height);
    }
}

#[test]
fn exactly_flush_unit_is_not_drawn() {
    let heights: Vec<u16> = vec![8];
    let (placements, cursor) = pack_heights(&heights, 8);
    assert_eq!(placements.len(), 0);
    assert_eq!(cursor, 8);

    let heights: Vec<u16> = vec![7];
    let (placements, _) = pack_heights(&heights, 8);
    assert_eq!(placements.len(), 1);
}

#[test]
fn place_unit_advances_unconditionally() {
    let (drawn, y) = place_unit(0, 5, 8);
    assert!(drawn);
    assert_eq!(y, 5);
    let (drawn, y) = place_unit(5, 5, 8);
    assert!(!drawn);
    assert_eq!(y, 10);
    let (drawn, y) = place_unit(10, 5, 8);
    assert!(!drawn);
    assert_eq!(y, 15);
}

#[test]
fn unit_heights_follow_unit_kinds() {
    let units = vec![
        RenderUnit::TextBlock {
            lines: vec![
                TextLine { spans: vec![Span { text: "a".to_string(), bold: false, italic: false, strike: false }] },
                TextLine { spans: vec![] },
                TextLine { spans: vec![] },
            ],
        },
        RenderUnit::Heading { spans: vec![], tier: 1 },
        RenderUnit::Image { url: "x.png".to_string() },
    ];
    let heights = unit_heights(&units);
    assert_eq!(heights, vec![3, 2, 10]);
}
