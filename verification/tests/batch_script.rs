use sqtop::views::detail::batch_script::BatchScriptScreen;
use sqtop::views::detail::{Outcome, Scroll};
use sqtop::views::keys::{Key, KeyPress};

#[test]
fn test_scroll_down_increments_offset() {
    let mut screen =
        BatchScriptScreen::new("123".to_string(), "line1\nline2\nline3".to_string());
    // 3 lines, viewport 2 -> max scroll is 1
    assert_eq!(screen.resolved_offset(2), 0);

    screen.handle_key(KeyPress::plain(Key::Down));
    assert_eq!(screen.resolved_offset(2), 1);

    screen.handle_key(KeyPress::plain(Key::Down));
    // At(1) -> Down -> At(2), resolved to min(2, 1) = 1
    assert_eq!(screen.resolved_offset(2), 1);
}

#[test]
fn test_scroll_up_decrements_offset() {
    let mut screen =
        BatchScriptScreen::new("123".to_string(), "line1\nline2\nline3".to_string());
    screen.set_scroll(Scroll::At(2));

    screen.handle_key(KeyPress::plain(Key::Up));
    // At(2) -> Up -> At(1), resolved to min(1, 1) = 1
    assert_eq!(screen.resolved_offset(2), 1);

    screen.handle_key(KeyPress::plain(Key::Up));
    // At(1) -> Up -> At(0), resolved to 0
    assert_eq!(screen.resolved_offset(2), 0);

    screen.handle_key(KeyPress::plain(Key::Up));
    // At(0) saturating_sub stays at 0
    assert_eq!(screen.resolved_offset(2), 0);
}

#[test]
fn batch_script_test_scroll_up_at_top_stays_at_zero() {
    let mut screen = BatchScriptScreen::new("123".to_string(), "line1\nline2".to_string());
    assert_eq!(screen.resolved_offset(1), 0);

    screen.handle_key(KeyPress::plain(Key::Up));
    assert_eq!(screen.resolved_offset(1), 0);
}

#[test]
fn test_page_down_increments_by_10() {
    let mut screen = BatchScriptScreen::new("123".to_string(), "line\n".repeat(50));
    screen.handle_key(KeyPress::plain(Key::PageDown));
    assert_eq!(screen.resolved_offset(10), 10);

    screen.handle_key(KeyPress::plain(Key::PageDown));
    assert_eq!(screen.resolved_offset(10), 20);
}

#[test]
fn test_page_up_decrements_by_10() {
    let mut screen = BatchScriptScreen::new("123".to_string(), "line\n".repeat(50));
    screen.set_scroll(Scroll::At(25));

    screen.handle_key(KeyPress::plain(Key::PageUp));
    assert_eq!(screen.resolved_offset(10), 15);

    screen.handle_key(KeyPress::plain(Key::PageUp));
    assert_eq!(screen.resolved_offset(10), 5);
}

#[test]
fn test_home_jumps_to_top() {
    let mut screen = BatchScriptScreen::new("123".to_string(), "line\n".repeat(50));
    screen.set_scroll(Scroll::At(25));

    screen.handle_key(KeyPress::plain(Key::Home));
    assert_eq!(screen.resolved_offset(10), 0);
}

#[test]
fn test_end_sets_bottom() {
    let mut screen = BatchScriptScreen::new("123".to_string(), "line\n".repeat(20));
    screen.handle_key(KeyPress::plain(Key::End));
    assert_eq!(screen.scroll(), Scroll::Bottom);
}

#[test]
fn batch_script_test_bottom_resolves_to_keep_viewport_full() {
    let screen = BatchScriptScreen::new("123".to_string(), "line\n".repeat(20));
    assert_eq!(screen.resolved_offset(5), 0); // starts at top

    let mut screen2 = screen;
    screen2.set_scroll(Scroll::Bottom);
    // 20 lines, viewport 5 -> bottom resolves to 15
    assert_eq!(screen2.resolved_offset(5), 15);
}

#[test]
fn batch_script_test_bottom_on_empty_content_resolves_to_zero() {
    let mut screen = BatchScriptScreen::new("123".to_string(), "".to_string());
    screen.set_scroll(Scroll::Bottom);
    assert_eq!(screen.resolved_offset(10), 0);
}

#[test]
fn test_bottom_on_short_content_resolves_to_zero() {
    let mut screen = BatchScriptScreen::new("123".to_string(), "a\nb\nc".to_string());
    screen.set_scroll(Scroll::Bottom);
    // 3 lines, viewport 10 -> saturating_sub gives 0
    assert_eq!(screen.resolved_offset(10), 0);
}

#[test]
fn batch_script_test_empty_content_does_not_panic() {
    let mut screen = BatchScriptScreen::new("123".to_string(), "".to_string());
    assert_eq!(screen.line_count(), 0);

    screen.handle_key(KeyPress::plain(Key::Down));
    screen.handle_key(KeyPress::plain(Key::Up));
    screen.handle_key(KeyPress::plain(Key::PageDown));
    assert_eq!(screen.resolved_offset(10), 0);
}

#[test]
fn test_single_line_does_not_underflow() {
    let mut screen = BatchScriptScreen::new("123".to_string(), "single line".to_string());
    assert_eq!(screen.line_count(), 1);

    screen.handle_key(KeyPress::plain(Key::Down));
    screen.handle_key(KeyPress::plain(Key::Down));
    screen.handle_key(KeyPress::plain(Key::Up));
    screen.handle_key(KeyPress::plain(Key::Up));
    screen.handle_key(KeyPress::plain(Key::Up));
    assert_eq!(screen.resolved_offset(1), 0);
}

#[test]
fn test_page_down_on_short_buffer_clamped_by_render() {
    let mut screen = BatchScriptScreen::new("123".to_string(), "a\nb\nc".to_string());
    assert_eq!(screen.line_count(), 3);

    screen.handle_key(KeyPress::plain(Key::PageDown));
    // At(10), but with viewport 5, max is 0 (3 - 5 saturates)
    assert_eq!(screen.resolved_offset(5), 0);
}

#[test]
fn test_esc_returns_close() {
    let mut screen = BatchScriptScreen::new("123".to_string(), "content".to_string());
    let outcome = screen.handle_key(KeyPress::plain(Key::Esc));
    assert_eq!(outcome, Outcome::Close);
}

#[test]
fn test_q_returns_close() {
    let mut screen = BatchScriptScreen::new("123".to_string(), "content".to_string());
    let outcome = screen.handle_key(KeyPress::plain(Key::Char('q')));
    assert_eq!(outcome, Outcome::Close);
}

#[test]
fn batch_script_test_resolved_offset_clamps_at_to_max() {
    let mut screen = BatchScriptScreen::new("123".to_string(), "line\n".repeat(20));
    screen.set_scroll(Scroll::At(100)); // way past the end

    // 20 lines, viewport 5 -> max offset is 15
    assert_eq!(screen.resolved_offset(5), 15);
}
