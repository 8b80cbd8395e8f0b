use sqtop::views::detail::log_viewer::LogViewerScreen;
use sqtop::views::detail::Scroll;
use sqtop::views::keys::{Key, KeyPress};

#[test]
fn test_new_starts_in_follow_mode() {
    let screen = LogViewerScreen::new(
        "123".to_string(),
        "/path/to/log".to_string(),
        "stdout".to_string(),
        "line1\nline2".to_string(),
    );
    assert!(screen.is_following());
}

#[test]
fn test_new_starts_at_bottom() {
    let screen = LogViewerScreen::new(
        "123".to_string(),
        "/path/to/log".to_string(),
        "stdout".to_string(),
        "line1\nline2".to_string(),
    );
    assert_eq!(screen.scroll(), Scroll::Bottom);
}

#[test]
fn log_viewer_test_bottom_resolves_to_keep_viewport_full() {
    let mut screen = LogViewerScreen::new(
        "123".to_string(),
        "/path/to/log".to_string(),
        "stdout".to_string(),
        "line\n".repeat(20),
    );
    screen.set_scroll(Scroll::Bottom);

    // 20 lines, viewport 5 -> bottom should resolve to 15
    assert_eq!(screen.resolved_offset(5), 15);
}

#[test]
fn log_viewer_test_bottom_on_empty_content_resolves_to_zero() {
    let mut screen = LogViewerScreen::new(
        "123".to_string(),
        "/path/to/log".to_string(),
        "stdout".to_string(),
        "".to_string(),
    );
    screen.set_scroll(Scroll::Bottom);
    assert_eq!(screen.resolved_offset(10), 0);
}

#[test]
fn test_update_content_in_follow_mode_scrolls_to_bottom() {
    let mut screen = LogViewerScreen::new(
        "123".to_string(),
        "/path/to/log".to_string(),
        "stdout".to_string(),
        "line1".to_string(),
    );
    assert!(screen.is_following());

    screen.update_content("line1\nline2\nline3".to_string());
    assert!(screen.is_following());
    assert_eq!(screen.scroll(), Scroll::Bottom);
}

#[test]
fn test_update_content_when_not_following_leaves_offset() {
    let mut screen = LogViewerScreen::new(
        "123".to_string(),
        "/path/to/log".to_string(),
        "stdout".to_string(),
        "line1\nline2".to_string(),
    );
    screen.set_scroll(Scroll::At(0));
    screen.set_follow(false);

    screen.update_content("line1\nline2\nline3".to_string());
    assert!(!screen.is_following());
    assert_eq!(screen.scroll(), Scroll::At(0)); // Should stay where user put it
}

#[test]
fn test_toggle_follow_when_off_scrolls_to_bottom() {
    let mut screen = LogViewerScreen::new(
        "123".to_string(),
        "/path/to/log".to_string(),
        "stdout".to_string(),
        "line1\nline2".to_string(),
    );
    screen.set_scroll(Scroll::At(0));
    screen.set_follow(false);

    screen.toggle_follow();
    assert!(screen.is_following());
    assert_eq!(screen.scroll(), Scroll::Bottom);
}

#[test]
fn test_toggle_follow_when_on_stays_at_current_offset() {
    let mut screen = LogViewerScreen::new(
        "123".to_string(),
        "/path/to/log".to_string(),
        "stdout".to_string(),
        "line1\nline2".to_string(),
    );
    screen.set_scroll(Scroll::Bottom);
    screen.set_follow(true);

    screen.toggle_follow();
    assert!(!screen.is_following());
    // scroll stays Bottom, just follow flag changes
    assert_eq!(screen.scroll(), Scroll::Bottom);
}

#[test]
fn test_scroll_up_disables_follow() {
    let mut screen = LogViewerScreen::new(
        "123".to_string(),
        "/path/to/log".to_string(),
        "stdout".to_string(),
        "line1\nline2\nline3".to_string(),
    );
    assert!(screen.is_following());

    screen.handle_key(KeyPress::plain(Key::Up));
    assert!(!screen.is_following());
}

#[test]
fn test_scroll_down_disables_follow() {
    let mut screen = LogViewerScreen::new(
        "123".to_string(),
        "/path/to/log".to_string(),
        "stdout".to_string(),
        "line1\nline2".to_string(),
    );
    screen.set_scroll(Scroll::At(0));

    screen.handle_key(KeyPress::plain(Key::Down));
    assert!(!screen.is_following());
}

#[test]
fn test_end_key_enables_follow() {
    let mut screen = LogViewerScreen::new(
        "123".to_string(),
        "/path/to/log".to_string(),
        "stdout".to_string(),
        "line1\nline2".to_string(),
    );
    screen.set_scroll(Scroll::At(0));
    screen.set_follow(false);

    screen.handle_key(KeyPress::plain(Key::End));
    assert!(screen.is_following());
    assert_eq!(screen.scroll(), Scroll::Bottom);
}

#[test]
fn test_home_key_disables_follow() {
    let mut screen = LogViewerScreen::new(
        "123".to_string(),
        "/path/to/log".to_string(),
        "stdout".to_string(),
        "line1\nline2".to_string(),
    );

    screen.handle_key(KeyPress::plain(Key::Home));
    assert!(!screen.is_following());
    assert_eq!(screen.scroll(), Scroll::At(0));
}

#[test]
fn test_page_up_disables_follow() {
    let mut screen = LogViewerScreen::new(
        "123".to_string(),
        "/path/to/log".to_string(),
        "stdout".to_string(),
        "line\n".repeat(50),
    );

    screen.handle_key(KeyPress::plain(Key::PageUp));
    assert!(!screen.is_following());
}

#[test]
fn test_page_down_disables_follow() {
    let mut screen = LogViewerScreen::new(
        "123".to_string(),
        "/path/to/log".to_string(),
        "stdout".to_string(),
        "line\n".repeat(50),
    );
    screen.set_scroll(Scroll::At(0));

    screen.handle_key(KeyPress::plain(Key::PageDown));
    assert!(!screen.is_following());
}

#[test]
fn test_f_key_toggles_follow() {
    let mut screen = LogViewerScreen::new(
        "123".to_string(),
        "/path/to/log".to_string(),
        "stdout".to_string(),
        "line1".to_string(),
    );
    let initial = screen.is_following();

    screen.handle_key(KeyPress::plain(Key::Char('f')));
    assert_eq!(screen.is_following(), !initial);

    screen.handle_key(KeyPress::plain(Key::Char('f')));
    assert_eq!(screen.is_following(), initial);
}

#[test]
fn log_viewer_test_scroll_up_at_top_stays_at_zero() {
    let mut screen = LogViewerScreen::new(
        "123".to_string(),
        "/path/to/log".to_string(),
        "stdout".to_string(),
        "line1\nline2".to_string(),
    );
    screen.set_scroll(Scroll::At(0));

    screen.handle_key(KeyPress::plain(Key::Up));
    assert_eq!(screen.resolved_offset(10), 0);
}

#[test]
fn log_viewer_test_empty_content_does_not_panic() {
    let mut screen = LogViewerScreen::new(
        "123".to_string(),
        "/path/to/log".to_string(),
        "stdout".to_string(),
        "".to_string(),
    );
    assert_eq!(screen.line_count(), 0);

    screen.handle_key(KeyPress::plain(Key::Down));
    screen.handle_key(KeyPress::plain(Key::Up));
    screen.handle_key(KeyPress::plain(Key::PageDown));
    // Should not panic
    assert_eq!(screen.resolved_offset(10), 0);
}

#[test]
fn test_page_down_on_short_buffer_is_safe() {
    let mut screen = LogViewerScreen::new(
        "123".to_string(),
        "/path/to/log".to_string(),
        "stdout".to_string(),
        "a\nb\nc".to_string(),
    );
    screen.set_scroll(Scroll::At(0));

    screen.handle_key(KeyPress::plain(Key::PageDown));
    // Offset goes to At(10), but render with viewport 5 clamps to 0 (3 - 5 saturates)
    assert_eq!(screen.resolved_offset(5), 0);
}

#[test]
fn test_update_content_with_same_content_does_not_reset() {
    let mut screen = LogViewerScreen::new(
        "123".to_string(),
        "/path/to/log".to_string(),
        "stdout".to_string(),
        "line1\nline2".to_string(),
    );
    screen.set_scroll(Scroll::At(0));
    screen.set_follow(false);

    screen.update_content("line1\nline2".to_string());
    assert_eq!(screen.scroll(), Scroll::At(0));
    assert!(!screen.is_following());
}

#[test]
fn log_viewer_test_resolved_offset_clamps_at_to_max() {
    let mut screen = LogViewerScreen::new(
        "123".to_string(),
        "/path/to/log".to_string(),
        "stdout".to_string(),
        "line\n".repeat(20),
    );
    screen.set_scroll(Scroll::At(100)); // way past the end

    // 20 lines, viewport 5 -> max offset is 15
    assert_eq!(screen.resolved_offset(5), 15);
}

