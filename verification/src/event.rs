//! Input events: keys, mouse, commands and broadcasts.
use vstd::prelude::*;
use crate::command::Command;
use crate::view::{Point, ViewId};

verus! {

/// A decomposed key (modifiers live in [`KeyModifiers`]).
#[derive(Clone, Copy, Debug, PartialEq, Eq, Hash, Structural)]
pub enum Key {
    Char(char),
    Enter,
    Esc,
    Tab,
    Backspace,
    Up,
    Down,
    Left,
    Right,
    Home,
    End,
    PageUp,
    PageDown,
    Insert,
    Delete,
    F(u8),
}

/// Modifier keys held with a key press.
#[derive(Clone, Copy, Debug, Default, PartialEq, Eq, Hash, Structural)]
pub struct KeyModifiers {
    pub shift: bool,
    pub ctrl: bool,
    pub alt: bool,
}

/// The modifier set with nothing held.
pub open spec fn no_key_modifiers() -> KeyModifiers {
    KeyModifiers { shift: false, ctrl: false, alt: false }
}

/// A key press.
#[derive(Clone, Copy, Debug, PartialEq, Eq, Hash, Structural)]
pub struct KeyEvent {
    pub key: Key,
    pub modifiers: KeyModifiers,
}

impl KeyEvent {
    /// A key press with the given modifiers.
    pub fn new(key: Key, modifiers: KeyModifiers) -> (k: Self)
        ensures
            k == (KeyEvent { key, modifiers }),
    {
        KeyEvent { key, modifiers }
    }
}

impl From<Key> for KeyEvent {
    /// The key pressed with no modifiers.
    fn from(key: Key) -> (k: KeyEvent) {
        KeyEvent { key, modifiers: KeyModifiers { shift: false, ctrl: false, alt: false } }
    }
}

impl vstd::std_specs::convert::FromSpecImpl<Key> for KeyEvent {
    open spec fn obeys_from_spec() -> bool {
        true
    }

    open spec fn from_spec(key: Key) -> KeyEvent {
        KeyEvent { key, modifiers: no_key_modifiers() }
    }
}

/// Mouse buttons held.
#[derive(Clone, Copy, Debug, Default, PartialEq, Eq, Hash, Structural)]
pub struct MouseButtons {
    pub left: bool,
    pub right: bool,
    pub middle: bool,
}

/// Extra mouse-event flags.
#[derive(Clone, Copy, Debug, Default, PartialEq, Eq, Hash, Structural)]
pub struct MouseEventFlags {
    pub double_click: bool,
    pub triple_click: bool,
}

/// A mouse event; `position` is view-local when a view receives it.
#[derive(Clone, Copy, Debug, Default, PartialEq, Eq, Hash, Structural)]
pub struct MouseEvent {
    pub position: Point,
    pub buttons: MouseButtons,
    pub flags: MouseEventFlags,
}

/// An event.
#[derive(Clone, Copy, Debug, PartialEq, Eq, Hash, Structural)]
pub enum Event {
    /// A consumed (cleared) event.
    Nothing,
    KeyDown(KeyEvent),
    MouseDown(MouseEvent),
    MouseUp(MouseEvent),
    MouseMove(MouseEvent),
    /// A command addressed to the focused chain.
    Command(Command),
    /// A command sent to every view, with the view it concerns.
    Broadcast { command: Command, source: Option<ViewId> },
}

impl Event {
    /// Mark the event handled (`clearEvent`).
    pub fn clear(&mut self)
        ensures
            *final(self) == Event::Nothing,
    {
        *self = Event::Nothing;
    }

    /// Has the event been handled?
    pub fn is_nothing(&self) -> (r: bool)
        ensures
            r == (*self is Nothing),
    {
        match self {
            Event::Nothing => true,
            _ => false,
        }
    }
}

/// The WordStar navigation alias of a Ctrl-letter, if any: ^S ^D ^E ^X ^A ^F
/// ^G ^V ^R ^C ^H stand for Left Right Up Down Home End Delete Insert PageUp
/// PageDown Backspace.
pub open spec fn wordstar_alias(c: char) -> Option<Key> {
    if c == 's' || c == 'S' {
        Some(Key::Left)
    } else if c == 'd' || c == 'D' {
        Some(Key::Right)
    } else if c == 'e' || c == 'E' {
        Some(Key::Up)
    } else if c == 'x' || c == 'X' {
        Some(Key::Down)
    } else if c == 'a' || c == 'A' {
        Some(Key::Home)
    } else if c == 'f' || c == 'F' {
        Some(Key::End)
    } else if c == 'g' || c == 'G' {
        Some(Key::Delete)
    } else if c == 'v' || c == 'V' {
        Some(Key::Insert)
    } else if c == 'r' || c == 'R' {
        Some(Key::PageUp)
    } else if c == 'c' || c == 'C' {
        Some(Key::PageDown)
    } else if c == 'h' || c == 'H' {
        Some(Key::Backspace)
    } else {
        None
    }
}

/// The result of `ctrlToArrow`: a Ctrl-letter with a WordStar alias becomes
/// that key (Ctrl released); everything else is unchanged.
pub open spec fn spec_ctrl_to_arrow(k: KeyEvent) -> KeyEvent {
    match k.key {
        Key::Char(c) => if k.modifiers.ctrl && wordstar_alias(c) is Some {
            KeyEvent {
                key: wordstar_alias(c)->0,
                modifiers: KeyModifiers { ctrl: false, ..k.modifiers },
            }
        } else {
            k
        },
        _ => k,
    }
}

/// `ctrlToArrow`: map the WordStar Ctrl-letter navigation aliases onto the
/// keys they stand for.
pub fn ctrl_to_arrow(k: KeyEvent) -> (r: KeyEvent)
    ensures
        r == spec_ctrl_to_arrow(k),
{
    match k.key {
        Key::Char(c) => {
            if !k.modifiers.ctrl {
                return k;
            }
            let mapped = if c == 's' || c == 'S' {
                Some(Key::Left)
            } else if c == 'd' || c == 'D' {
                Some(Key::Right)
            } else if c == 'e' || c == 'E' {
                Some(Key::Up)
            } else if c == 'x' || c == 'X' {
                Some(Key::Down)
            } else if c == 'a' || c == 'A' {
                Some(Key::Home)
            } else if c == 'f' || c == 'F' {
                Some(Key::End)
            } else if c == 'g' || c == 'G' {
                Some(Key::Delete)
            } else if c == 'v' || c == 'V' {
                Some(Key::Insert)
            } else if c == 'r' || c == 'R' {
                Some(Key::PageUp)
            } else if c == 'c' || c == 'C' {
                Some(Key::PageDown)
            } else if c == 'h' || c == 'H' {
                Some(Key::Backspace)
            } else {
                None
            };
            match mapped {
                Some(key) => KeyEvent {
                    key,
                    modifiers: KeyModifiers {
                        shift: k.modifiers.shift,
                        ctrl: false,
                        alt: k.modifiers.alt,
                    },
                },
                None => k,
            }
        },
        _ => k,
    }
}

} // verus!
