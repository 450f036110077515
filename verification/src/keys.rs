//! Key presses as the editor reads them, and the commands that they stand
//! for.

use vstd::prelude::*;
use crate::viewport::Movement;

verus! {

/// The key of a key event.
#[derive(Clone, Copy, PartialEq, Eq, Structural, Debug)]
pub enum Key {
    Char(char),
    Enter,
    Backspace,
    Delete,
    Esc,
    Up,
    Down,
    Left,
    Right,
    PageUp,
    PageDown,
    Home,
    End,
    /// Any key that the editor gives no meaning.
    Other,
}

/// The modifier keys held with a key: none, Shift alone, Control alone,
/// or anything else.
#[derive(Clone, Copy, PartialEq, Eq, Structural, Debug)]
pub enum Modifiers {
    Unmodified,
    Shift,
    Control,
    Other,
}

/// A key event.
#[derive(Clone, Copy, PartialEq, Eq, Structural, Debug)]
pub struct KeyPress {
    pub key: Key,
    pub modifiers: Modifiers,
    /// The key went down; false for a repeat or a release.
    pub pressed: bool,
    /// The event carries no further state, such as a lock key or the
    /// keypad.
    pub plain: bool,
}

/// What a key event asks the editor to do.
#[derive(Clone, Copy, PartialEq, Eq, Structural, Debug)]
pub enum Command {
    Quit,
    Save,
    Find,
    Insert(char),
    Move(Movement),
    Delete,
    Backspace,
    Nothing,
}

/// The movement that a key stands for, if it is a movement key.
pub open spec fn movement_of(key: Key) -> Option<Movement> {
    match key {
        Key::Up => Some(Movement::Up),
        Key::Down => Some(Movement::Down),
        Key::Left => Some(Movement::Left),
        Key::Right => Some(Movement::Right),
        Key::PageUp => Some(Movement::PageUp),
        Key::PageDown => Some(Movement::PageDown),
        Key::Home => Some(Movement::Home),
        Key::End => Some(Movement::End),
        _ => None,
    }
}

/// The command table. Only a key that went down gives a command. With
/// Control alone, `q` quits, `s` saves and `f` searches. A character with
/// no modifier, or with Shift alone, is inserted; Enter with no modifier
/// inserts a newline. With no modifier, Delete and Backspace delete, and
/// a movement key whose event carries no further state moves the cursor.
pub open spec fn command_of(event: KeyPress) -> Command {
    if !event.pressed {
        Command::Nothing
    } else {
        match (event.key, event.modifiers) {
            (Key::Char('q'), Modifiers::Control) => Command::Quit,
            (Key::Char('s'), Modifiers::Control) => Command::Save,
            (Key::Char('f'), Modifiers::Control) => Command::Find,
            (Key::Char(c), Modifiers::Unmodified) => Command::Insert(c),
            (Key::Char(c), Modifiers::Shift) => Command::Insert(c),
            (Key::Enter, Modifiers::Unmodified) => Command::Insert('\n'),
            (Key::Delete, Modifiers::Unmodified) => Command::Delete,
            (Key::Backspace, Modifiers::Unmodified) => Command::Backspace,
            (key, Modifiers::Unmodified) => if event.plain && movement_of(key) is Some {
                Command::Move(movement_of(key)->0)
            } else {
                Command::Nothing
            },
            _ => Command::Nothing,
        }
    }
}

/// The movement that a key stands for, if it is a movement key.
pub fn movement_for(key: Key) -> (movement: Option<Movement>)
    ensures
        movement == movement_of(key),
{
    match key {
        Key::Up => Some(Movement::Up),
        Key::Down => Some(Movement::Down),
        Key::Left => Some(Movement::Left),
        Key::Right => Some(Movement::Right),
        Key::PageUp => Some(Movement::PageUp),
        Key::PageDown => Some(Movement::PageDown),
        Key::Home => Some(Movement::Home),
        Key::End => Some(Movement::End),
        _ => None,
    }
}

/// Looks the event up in the command table.
pub fn command_for(event: &KeyPress) -> (command: Command)
    ensures
        command == command_of(*event),
{
    if !event.pressed {
        return Command::Nothing;
    }
    match event.modifiers {
        Modifiers::Control => match event.key {
            Key::Char(c) => if c == 'q' {
                Command::Quit
            } else if c == 's' {
                Command::Save
            } else if c == 'f' {
                Command::Find
            } else {
                Command::Nothing
            },
            _ => Command::Nothing,
        },
        Modifiers::Shift => match event.key {
            Key::Char(c) => Command::Insert(c),
            _ => Command::Nothing,
        },
        Modifiers::Unmodified => match event.key {
            Key::Char(c) => Command::Insert(c),
            Key::Enter => Command::Insert('\n'),
            Key::Delete => Command::Delete,
            Key::Backspace => Command::Backspace,
            key => match movement_for(key) {
                Some(movement) => if event.plain {
                    Command::Move(movement)
                } else {
                    Command::Nothing
                },
                None => Command::Nothing,
            },
        },
        Modifiers::Other => Command::Nothing,
    }
}

} // verus!
