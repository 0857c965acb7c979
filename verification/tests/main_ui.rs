use red_tui::ui::scroll_offset;

#[test]
fn main_scroll_offset_keeps_selection_visible() {
    assert_eq!(scroll_offset(3, 0, 10), 0);
    assert_eq!(scroll_offset(20, 0, 5), 0);
    assert_eq!(scroll_offset(20, 10, 5), 8);
    assert_eq!(scroll_offset(20, 19, 5), 15);
}
