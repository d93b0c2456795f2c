//! Semantic key events.

use vstd::prelude::*;

verus! {

/// Number of columns a tab key occupies on a rendered line.
pub const TAB_STOP: usize = 4;

/// A key event.
#[derive(Debug, Clone, Copy, Eq)]
pub enum Key {
    /// A literal character.
    Char(char),
    /// An arrow key.
    ArrowKey(Direction),
    /// A function key, `1` to `12`.
    FunctionKey(u8),
    /// A control key.
    ControlKey(ControlKey),
    /// A lock or media key.
    SpecialKey(SpecialKey),
}

/// The direction of an arrow key.
#[derive(Debug, Clone, Copy, Eq)]
pub enum Direction {
    Up,
    Down,
    Left,
    Right,
}

/// The kind of a control key.
#[derive(Debug, Clone, Copy, Eq)]
pub enum ControlKey {
    /// Ctrl held with a character.
    Ctrl(char),
    /// Alt held with a character.
    Alt(char),
    Tab,
    LF,
    CR,
    Escape,
    Backspace,
    Delete,
    Home,
    End,
    PageUp,
    PageDown,
    Insert,
}

/// The kind of a lock or media key.
#[derive(Debug, Clone, Copy, Eq)]
pub enum SpecialKey {
    CapsLock,
    NumLock,
    ScrollLock,
    PrintScreen,
    PauseBreak,
    Menu,
}

impl PartialEq for Direction {
    fn eq(&self, other: &Direction) -> (r: bool) {
        match (*self, *other) {
            (Direction::Up, Direction::Up) => true,
            (Direction::Down, Direction::Down) => true,
            (Direction::Left, Direction::Left) => true,
            (Direction::Right, Direction::Right) => true,
            _ => false,
        }
    }
}

impl vstd::std_specs::cmp::PartialEqSpecImpl for Direction {
    open spec fn obeys_eq_spec() -> bool {
        true
    }

    open spec fn eq_spec(&self, other: &Direction) -> bool {
        *self == *other
    }
}

impl PartialEq for ControlKey {
    fn eq(&self, other: &ControlKey) -> (r: bool) {
        match (*self, *other) {
            (ControlKey::Ctrl(a), ControlKey::Ctrl(b)) => a == b,
            (ControlKey::Alt(a), ControlKey::Alt(b)) => a == b,
            (ControlKey::Tab, ControlKey::Tab) => true,
            (ControlKey::LF, ControlKey::LF) => true,
            (ControlKey::CR, ControlKey::CR) => true,
            (ControlKey::Escape, ControlKey::Escape) => true,
            (ControlKey::Backspace, ControlKey::Backspace) => true,
            (ControlKey::Delete, ControlKey::Delete) => true,
            (ControlKey::Home, ControlKey::Home) => true,
            (ControlKey::End, ControlKey::End) => true,
            (ControlKey::PageUp, ControlKey::PageUp) => true,
            (ControlKey::PageDown, ControlKey::PageDown) => true,
            (ControlKey::Insert, ControlKey::Insert) => true,
            _ => false,
        }
    }
}

impl vstd::std_specs::cmp::PartialEqSpecImpl for ControlKey {
    open spec fn obeys_eq_spec() -> bool {
        true
    }

    open spec fn eq_spec(&self, other: &ControlKey) -> bool {
        *self == *other
    }
}

impl PartialEq for SpecialKey {
    fn eq(&self, other: &SpecialKey) -> (r: bool) {
        match (*self, *other) {
            (SpecialKey::CapsLock, SpecialKey::CapsLock) => true,
            (SpecialKey::NumLock, SpecialKey::NumLock) => true,
            (SpecialKey::ScrollLock, SpecialKey::ScrollLock) => true,
            (SpecialKey::PrintScreen, SpecialKey::PrintScreen) => true,
            (SpecialKey::PauseBreak, SpecialKey::PauseBreak) => true,
            (SpecialKey::Menu, SpecialKey::Menu) => true,
            _ => false,
        }
    }
}

impl vstd::std_specs::cmp::PartialEqSpecImpl for SpecialKey {
    open spec fn obeys_eq_spec() -> bool {
        true
    }

    open spec fn eq_spec(&self, other: &SpecialKey) -> bool {
        *self == *other
    }
}

impl PartialEq for Key {
    fn eq(&self, other: &Key) -> (r: bool) {
        match (*self, *other) {
            (Key::Char(a), Key::Char(b)) => a == b,
            (Key::ArrowKey(a), Key::ArrowKey(b)) => a == b,
            (Key::FunctionKey(a), Key::FunctionKey(b)) => a == b,
            (Key::ControlKey(a), Key::ControlKey(b)) => a == b,
            (Key::SpecialKey(a), Key::SpecialKey(b)) => a == b,
            _ => false,
        }
    }
}

impl vstd::std_specs::cmp::PartialEqSpecImpl for Key {
    open spec fn obeys_eq_spec() -> bool {
        true
    }

    open spec fn eq_spec(&self, other: &Key) -> bool {
        *self == *other
    }
}

impl Key {
    /// The characters a key contributes to a rendered line: a literal
    /// character stands for itself, a tab for `TAB_STOP` spaces, and every
    /// other key for nothing.
    pub open spec fn rendering(self) -> Seq<char> {
        match self {
            Key::Char(c) => seq![c],
            Key::ControlKey(ControlKey::Tab) => Seq::new(TAB_STOP as nat, |i: int| ' '),
            _ => Seq::empty(),
        }
    }

    /// The number of columns a key occupies on a rendered line.
    pub open spec fn width(self) -> nat {
        match self {
            Key::Char(_) => 1,
            Key::ControlKey(ControlKey::Tab) => TAB_STOP as nat,
            _ => 0,
        }
    }

    /// The character a key stands for in the text of a line, if any: a tab
    /// key is a tab character again.
    pub open spec fn literal(self) -> Option<char> {
        match self {
            Key::Char(c) => Some(c),
            Key::ControlKey(ControlKey::Tab) => Some('\t'),
            _ => None,
        }
    }

    /// A key's width is the length of its rendering.
    pub proof fn lemma_width_is_rendering_len(self)
        ensures
            self.rendering().len() == self.width(),
            self.width() <= TAB_STOP,
    {
    }

    /// The text a key contributes to a rendered line.
    pub fn render(&self) -> (s: String)
        ensures
            s@ == self.rendering(),
    {
        let mut s = String::new();
        match *self {
            Key::Char(c) => {
                s.push(c);
                assert(s@ =~= seq![c]);
            },
            Key::ControlKey(ControlKey::Tab) => {
                let mut i: usize = 0;
                while i < TAB_STOP
                    invariant
                        i <= TAB_STOP,
                        s@ == Seq::new(i as nat, |j: int| ' '),
                    decreases TAB_STOP - i,
                {
                    s.push(' ');
                    i += 1;
                    assert(s@ =~= Seq::new(i as nat, |j: int| ' '));
                }
            },
            _ => {},
        }
        s
    }

    /// The number of columns a key occupies on a rendered line.
    pub fn get_display_width(&self) -> (w: usize)
        ensures
            w == self.width(),
    {
        match *self {
            Key::Char(_) => 1,
            Key::ControlKey(ControlKey::Tab) => TAB_STOP,
            _ => 0,
        }
    }
}

} // verus!
