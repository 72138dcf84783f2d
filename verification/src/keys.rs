use vstd::prelude::*;

verus! {

/// The keys that the screens react to; any other key is `Other`.
#[derive(Clone, Copy, Debug, PartialEq, Eq, Structural)]
pub enum KeyCode {
    Backspace,
    Enter,
    Left,
    Right,
    Up,
    Down,
    Home,
    End,
    Tab,
    BackTab,
    Delete,
    Esc,
    Char(char),
    Other,
}

/// Whether a key went down, repeats, or went up.
#[derive(Clone, Copy, Debug, PartialEq, Eq, Structural)]
pub enum KeyKind {
    Press,
    Repeat,
    Release,
}

/// Bit of `KeyPress::modifiers` that stands for the shift key.
pub const SHIFT: u8 = 1;
/// Bit of `KeyPress::modifiers` that stands for the control key.
pub const CONTROL: u8 = 2;
/// Bit of `KeyPress::modifiers` that stands for the alt key.
pub const ALT: u8 = 4;
/// Bit of `KeyPress::modifiers` that stands for the meta key.
pub const META: u8 = 32;

/// One key event: the key, the set of modifier keys held (as bits) and its kind.
#[derive(Clone, Copy, Debug, PartialEq, Eq, Structural)]
pub struct KeyPress {
    pub code: KeyCode,
    pub modifiers: u8,
    pub kind: KeyKind,
}

/// A terminal event as the screens see it: a key, or anything else (mouse, resize, ...).
#[derive(Clone, Copy, Debug, PartialEq, Eq, Structural)]
pub enum InputEvent {
    Key(KeyPress),
    Other,
}

impl KeyPress {
    /// A plain key press without modifiers.
    pub fn plain(code: KeyCode) -> (k: KeyPress)
        ensures
            k == (KeyPress { code, modifiers: 0, kind: KeyKind::Press }),
    {
        KeyPress { code, modifiers: 0, kind: KeyKind::Press }
    }

    /// Whether the control key was held.
    pub open spec fn spec_has_control(&self) -> bool {
        self.modifiers & CONTROL != 0
    }

    /// Whether the control key was held.
    #[verifier::when_used_as_spec(spec_has_control)]
    pub fn has_control(&self) -> (b: bool)
        ensures
            b == self.spec_has_control(),
    {
        self.modifiers & CONTROL != 0
    }

    /// Control-C, which quits from every screen that listens for it.
    pub open spec fn spec_is_ctrl_c(&self) -> bool {
        self.spec_has_control() && self.code == KeyCode::Char('c')
    }

    /// Control-C, which quits from every screen that listens for it.
    #[verifier::when_used_as_spec(spec_is_ctrl_c)]
    pub fn is_ctrl_c(&self) -> (b: bool)
        ensures
            b == self.spec_is_ctrl_c(),
    {
        self.has_control() && match self.code {
            KeyCode::Char(c) => c == 'c',
            _ => false,
        }
    }
}

} // verus!
