use sqtop::views::keys::{Key, KeyPress};
use sqtop::views::modals::confirm::{ConfirmResult, ConfirmState, FocusButton};
use sqtop::views::modals::ModalOutcome;

#[test]
fn test_confirm_y_returns_yes() {
    let mut state = ConfirmState::new("Delete?");
    let outcome = state.handle_key(KeyPress::plain(Key::Char('y')));
    assert_eq!(outcome, ModalOutcome::Dismiss(ConfirmResult::Yes));
}

#[test]
fn test_confirm_n_returns_no() {
    let mut state = ConfirmState::new("Delete?");
    let outcome = state.handle_key(KeyPress::plain(Key::Char('n')));
    assert_eq!(outcome, ModalOutcome::Dismiss(ConfirmResult::No));
}

#[test]
fn test_confirm_esc_returns_no() {
    let mut state = ConfirmState::new("Delete?");
    let outcome = state.handle_key(KeyPress::plain(Key::Esc));
    assert_eq!(outcome, ModalOutcome::Dismiss(ConfirmResult::No));
}

#[test]
fn test_confirm_arrow_keys_cycle_focus() {
    let mut state = ConfirmState::new("Delete?");

    assert_eq!(state.focused(), FocusButton::Yes);

    state.handle_key(KeyPress::plain(Key::Down));
    assert_eq!(state.focused(), FocusButton::No);

    state.handle_key(KeyPress::plain(Key::Down));
    assert_eq!(state.focused(), FocusButton::Yes);
}
