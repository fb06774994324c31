use mdview::input::{update_scroll, InputAction};

#[test]
fn scroll_down_advances_offset() {
    let (scroll, quit) = update_scroll(0, InputAction::ScrollDown);
    assert_eq!(scroll, 1);
    assert!(!quit);
}

#[test]
fn scroll_up_retreats_offset() {
    let (scroll, quit) = update_scroll(5, InputAction::ScrollUp);
    assert_eq!(scroll, 4);
    assert!(!quit);
}

#[test]
fn quit_stops_the_loop_without_moving() {
    let (scroll, quit) = update_scroll(7, InputAction::Quit);
    assert_eq!(scroll, 7);
    assert!(quit);
}

#[test]
fn other_keys_are_ignored() {
    let (scroll, quit) = update_scroll(-3, InputAction::Other);
    assert_eq!(scroll, -3);
    assert!(!quit);
}
