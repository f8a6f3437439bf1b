//! Input events and the key bindings that turn them into actions.

use vstd::prelude::*;

verus! {

/// A key on the keyboard, as the terminal reports it.
#[derive(Clone, Copy, PartialEq, Eq, Structural, Debug)]
pub enum KeyCode {
    Char(char),
    Up,
    Down,
    Left,
    Right,
    PageUp,
    PageDown,
    Home,
    End,
    Enter,
    Esc,
    Backspace,
    Delete,
    F(u8),
    /// Any other key.
    Other,
}

/// The modifier keys held down with a key, as a bit set.
#[derive(Clone, Copy, PartialEq, Eq, Structural, Debug)]
pub struct KeyModifiers {
    pub bits: u8,
}

/// The bit of Shift in [`KeyModifiers`].
pub const SHIFT_BIT: u8 = 1;
/// The bit of Ctrl in [`KeyModifiers`].
pub const CONTROL_BIT: u8 = 2;
/// The bit of Alt in [`KeyModifiers`].
pub const ALT_BIT: u8 = 4;

impl KeyModifiers {
    /// No modifier held.
    pub fn none() -> (m: KeyModifiers)
        ensures
            m.bits == 0,
    {
        KeyModifiers { bits: 0 }
    }

    /// Shift alone.
    pub fn shift() -> (m: KeyModifiers)
        ensures
            m.bits == SHIFT_BIT,
    {
        KeyModifiers { bits: SHIFT_BIT }
    }

    /// Ctrl alone.
    pub fn control() -> (m: KeyModifiers)
        ensures
            m.bits == CONTROL_BIT,
    {
        KeyModifiers { bits: CONTROL_BIT }
    }
}

/// A key press.
#[derive(Clone, Copy, PartialEq, Eq, Structural, Debug)]
pub struct KeyEvent {
    pub code: KeyCode,
    pub modifiers: KeyModifiers,
}

impl KeyEvent {
    pub fn new(code: KeyCode, modifiers: KeyModifiers) -> (k: KeyEvent)
        ensures
            k.code == code,
            k.modifiers == modifiers,
    {
        KeyEvent { code, modifiers }
    }
}

/// What the application reacts to: a key press, or the periodic tick.
#[derive(Clone, Copy, PartialEq, Eq, Structural, Debug)]
pub enum AppEvent {
    Key(KeyEvent),
    Tick,
}

/// How often the event source wakes up when no key is pressed.
pub struct EventHandler {
    pub tick_rate_ms: u64,
}

impl EventHandler {
    pub fn new(tick_ms: u64) -> (h: Self)
        ensures
            h.tick_rate_ms == tick_ms,
    {
        EventHandler { tick_rate_ms: tick_ms }
    }
}

/// Normalised key action, decoupled from raw terminal events.
#[derive(Clone, Copy, PartialEq, Eq, Structural, Debug)]
pub enum Action {
    Quit,
    MoveUp,
    MoveDown,
    PageUp,
    PageDown,
    Top,
    Bottom,
    SelectBranch,
    ToggleAll,
    Search,
    SearchNext,
    SearchPrev,
    ClearSearch,
    Help,
    Refresh,
    Escape,
    Char(char),
    Backspace,
    Enter,
}

/// The key bindings: `q` or Ctrl+C quits; arrows and `k`/`j` move;
/// PageUp/Ctrl+B and PageDown/Ctrl+F page; Home/`g` and End/`G` jump;
/// Enter, `l` and Right select; `a` toggles remotes; `/` searches; `n`/`N`
/// step through matches; `r` refreshes; `?` and F1 show help; Esc, `h` and
/// Left go back; Backspace and Delete erase; any other character is itself;
/// other keys do nothing. A binding with Ctrl needs Ctrl alone.
pub open spec fn key_action(key: KeyEvent) -> Option<Action> {
    let ctrl = key.modifiers.bits == CONTROL_BIT;
    match key.code {
        KeyCode::Char(c) => {
            if c == 'q' || (c == 'c' && ctrl) {
                Some(Action::Quit)
            } else if c == 'k' {
                Some(Action::MoveUp)
            } else if c == 'j' {
                Some(Action::MoveDown)
            } else if c == 'b' && ctrl {
                Some(Action::PageUp)
            } else if c == 'f' && ctrl {
                Some(Action::PageDown)
            } else if c == 'g' {
                Some(Action::Top)
            } else if c == 'G' {
                Some(Action::Bottom)
            } else if c == 'l' {
                Some(Action::SelectBranch)
            } else if c == 'a' {
                Some(Action::ToggleAll)
            } else if c == '/' {
                Some(Action::Search)
            } else if c == 'n' {
                Some(Action::SearchNext)
            } else if c == 'N' {
                Some(Action::SearchPrev)
            } else if c == 'r' {
                Some(Action::Refresh)
            } else if c == '?' {
                Some(Action::Help)
            } else if c == 'h' {
                Some(Action::Escape)
            } else {
                Some(Action::Char(c))
            }
        },
        KeyCode::Up => Some(Action::MoveUp),
        KeyCode::Down => Some(Action::MoveDown),
        KeyCode::PageUp => Some(Action::PageUp),
        KeyCode::PageDown => Some(Action::PageDown),
        KeyCode::Home => Some(Action::Top),
        KeyCode::End => Some(Action::Bottom),
        KeyCode::Enter | KeyCode::Right => Some(Action::SelectBranch),
        KeyCode::F(n) => if n == 1 { Some(Action::Help) } else { None },
        KeyCode::Esc | KeyCode::Left => Some(Action::Escape),
        KeyCode::Backspace | KeyCode::Delete => Some(Action::Backspace),
        KeyCode::Other => None,
    }
}

/// Maps a key press to its action.
pub fn key_to_action(key: KeyEvent) -> (r: Option<Action>)
    ensures
        r == key_action(key),
{
    let ctrl = key.modifiers.bits == CONTROL_BIT;
    match key.code {
        KeyCode::Char(c) => {
            if c == 'q' || (c == 'c' && ctrl) {
                Some(Action::Quit)
            } else if c == 'k' {
                Some(Action::MoveUp)
            } else if c == 'j' {
                Some(Action::MoveDown)
            } else if c == 'b' && ctrl {
                Some(Action::PageUp)
            } else if c == 'f' && ctrl {
                Some(Action::PageDown)
            } else if c == 'g' {
                Some(Action::Top)
            } else if c == 'G' {
                Some(Action::Bottom)
            } else if c == 'l' {
                Some(Action::SelectBranch)
            } else if c == 'a' {
                Some(Action::ToggleAll)
            } else if c == '/' {
                Some(Action::Search)
            } else if c == 'n' {
                Some(Action::SearchNext)
            } else if c == 'N' {
                Some(Action::SearchPrev)
            } else if c == 'r' {
                Some(Action::Refresh)
            } else if c == '?' {
                Some(Action::Help)
            } else if c == 'h' {
                Some(Action::Escape)
            } else {
                Some(Action::Char(c))
            }
        },
        KeyCode::Up => Some(Action::MoveUp),
        KeyCode::Down => Some(Action::MoveDown),
        KeyCode::PageUp => Some(Action::PageUp),
        KeyCode::PageDown => Some(Action::PageDown),
        KeyCode::Home => Some(Action::Top),
        KeyCode::End => Some(Action::Bottom),
        KeyCode::Enter | KeyCode::Right => Some(Action::SelectBranch),
        KeyCode::F(n) => if n == 1 { Some(Action::Help) } else { None },
        KeyCode::Esc | KeyCode::Left => Some(Action::Escape),
        KeyCode::Backspace | KeyCode::Delete => Some(Action::Backspace),
        KeyCode::Other => None,
    }
}

/// The key event of `code` pressed with `modifiers`.
pub open spec fn press(code: KeyCode, modifiers: KeyModifiers) -> KeyEvent {
    KeyEvent { code, modifiers }
}

/// The keys of the key table do what the table says, whatever modifier is
/// held (Ctrl+b, Ctrl+f and Ctrl+c with Ctrl alone): `j`/Down move down,
/// `k`/Up move up, `g`/Home and `G`/End jump, Enter/`l`/Right focus the
/// commit graph, `h`/Esc/Left go back, `/`, `n`, `N` search, `a` toggles
/// the branches shown, `r` refreshes, `?`/F1 show help, `q` quits.
pub proof fn law_keys_follow_the_key_table(m: KeyModifiers)
    ensures
        key_action(press(KeyCode::Char('j'), m)) == Some(Action::MoveDown),
        key_action(press(KeyCode::Down, m)) == Some(Action::MoveDown),
        key_action(press(KeyCode::Char('k'), m)) == Some(Action::MoveUp),
        key_action(press(KeyCode::Up, m)) == Some(Action::MoveUp),
        key_action(press(KeyCode::PageDown, m)) == Some(Action::PageDown),
        key_action(press(KeyCode::PageUp, m)) == Some(Action::PageUp),
        m.bits == CONTROL_BIT ==> key_action(press(KeyCode::Char('f'), m)) == Some(Action::PageDown),
        m.bits == CONTROL_BIT ==> key_action(press(KeyCode::Char('b'), m)) == Some(Action::PageUp),
        key_action(press(KeyCode::Char('g'), m)) == Some(Action::Top),
        key_action(press(KeyCode::Home, m)) == Some(Action::Top),
        key_action(press(KeyCode::Char('G'), m)) == Some(Action::Bottom),
        key_action(press(KeyCode::End, m)) == Some(Action::Bottom),
        key_action(press(KeyCode::Enter, m)) == Some(Action::SelectBranch),
        key_action(press(KeyCode::Char('l'), m)) == Some(Action::SelectBranch),
        key_action(press(KeyCode::Right, m)) == Some(Action::SelectBranch),
        key_action(press(KeyCode::Char('h'), m)) == Some(Action::Escape),
        key_action(press(KeyCode::Esc, m)) == Some(Action::Escape),
        key_action(press(KeyCode::Left, m)) == Some(Action::Escape),
        key_action(press(KeyCode::Char('/'), m)) == Some(Action::Search),
        key_action(press(KeyCode::Char('n'), m)) == Some(Action::SearchNext),
        key_action(press(KeyCode::Char('N'), m)) == Some(Action::SearchPrev),
        key_action(press(KeyCode::Char('a'), m)) == Some(Action::ToggleAll),
        key_action(press(KeyCode::Char('r'), m)) == Some(Action::Refresh),
        key_action(press(KeyCode::Char('?'), m)) == Some(Action::Help),
        key_action(press(KeyCode::F(1), m)) == Some(Action::Help),
        key_action(press(KeyCode::Char('q'), m)) == Some(Action::Quit),
        m.bits == CONTROL_BIT ==> key_action(press(KeyCode::Char('c'), m)) == Some(Action::Quit),
{
}

} // verus!
