use gitopo::events::{key_to_action, Action, EventHandler, KeyCode, KeyEvent, KeyModifiers};

fn key(code: KeyCode) -> KeyEvent {
    KeyEvent::new(code, KeyModifiers::none())
}

#[test]
fn quit_bindings() {
    assert_eq!(key_to_action(key(KeyCode::Char('q'))), Some(Action::Quit));
    assert_eq!(
        key_to_action(KeyEvent::new(KeyCode::Char('c'), KeyModifiers::control())),
        Some(Action::Quit)
    );
}

#[test]
fn navigation_bindings() {
    assert_eq!(key_to_action(key(KeyCode::Char('j'))), Some(Action::MoveDown));
    assert_eq!(key_to_action(key(KeyCode::Up)), Some(Action::MoveUp));
    assert_eq!(key_to_action(key(KeyCode::Char('g'))), Some(Action::Top));
    assert_eq!(
        key_to_action(KeyEvent::new(KeyCode::Char('G'), KeyModifiers::shift())),
        Some(Action::Bottom)
    );
    assert_eq!(
        key_to_action(KeyEvent::new(KeyCode::Char('f'), KeyModifiers::control())),
        Some(Action::PageDown)
    );
}

#[test]
fn mode_bindings() {
    assert_eq!(key_to_action(key(KeyCode::Char('/'))), Some(Action::Search));
    assert_eq!(key_to_action(key(KeyCode::Char('a'))), Some(Action::ToggleAll));
    assert_eq!(key_to_action(key(KeyCode::Char('?'))), Some(Action::Help));
    assert_eq!(key_to_action(key(KeyCode::Esc)), Some(Action::Escape));
    assert_eq!(key_to_action(key(KeyCode::F(5))), None);
}

#[test]
fn ctrl_bindings_need_ctrl_alone() {
    // Plain 'c', 'b', 'f' are ordinary characters.
    assert_eq!(key_to_action(key(KeyCode::Char('c'))), Some(Action::Char('c')));
    assert_eq!(key_to_action(key(KeyCode::Char('b'))), Some(Action::Char('b')));
    // Ctrl together with Shift is not Ctrl alone.
    let both = KeyModifiers { bits: KeyModifiers::control().bits | KeyModifiers::shift().bits };
    assert_eq!(key_to_action(KeyEvent::new(KeyCode::Char('c'), both)), Some(Action::Char('c')));
    assert_eq!(
        key_to_action(KeyEvent::new(KeyCode::Char('b'), KeyModifiers::control())),
        Some(Action::PageUp)
    );
}

#[test]
fn other_bindings() {
    assert_eq!(key_to_action(key(KeyCode::F(1))), Some(Action::Help));
    assert_eq!(key_to_action(key(KeyCode::Delete)), Some(Action::Backspace));
    assert_eq!(key_to_action(key(KeyCode::Right)), Some(Action::SelectBranch));
    assert_eq!(key_to_action(key(KeyCode::Left)), Some(Action::Escape));
    assert_eq!(key_to_action(key(KeyCode::Char('h'))), Some(Action::Escape));
    assert_eq!(key_to_action(key(KeyCode::Char('N'))), Some(Action::SearchPrev));
    assert_eq!(key_to_action(key(KeyCode::End)), Some(Action::Bottom));
    assert_eq!(key_to_action(key(KeyCode::Other)), None);
}

#[test]
fn event_handler_keeps_its_tick_rate() {
    assert_eq!(EventHandler::new(250).tick_rate_ms, 250);
}
