use chatui::viewport::{message_top_offset, total_wrapped_line_count, wrapped_line_count};

#[test]
fn message_offset_is_bottom_aligned_by_default() {
    assert_eq!(message_top_offset(10, 4, 0), 6);
}

#[test]
fn message_offset_moves_up_when_scrolling_history() {
    assert_eq!(message_top_offset(10, 4, 2), 4);
}

#[test]
fn message_offset_clamps_when_scrolled_too_far() {
    assert_eq!(message_top_offset(10, 4, 100), 0);
}

#[test]
fn message_offset_is_zero_when_content_fits() {
    assert_eq!(message_top_offset(3, 10, 0), 0);
}

#[test]
fn wrapped_line_count_respects_width() {
    assert_eq!(wrapped_line_count("abcd", 2), 2);
}

#[test]
fn wrapped_line_count_handles_newlines() {
    assert_eq!(wrapped_line_count("ab\ncdef", 2), 3);
}

#[test]
fn total_wrapped_line_count_sums_lines() {
    let lines = vec!["abc".to_string(), "defgh".to_string()];
    assert_eq!(total_wrapped_line_count(&lines, 2), 5);
}
