//! The one-line prompt of the status line: what the user has typed so far,
//! and what each key does to it.

use vstd::prelude::*;
use crate::keys::{Key, KeyPress, Modifiers};
use crate::position::{Position, SearchDirection};
use crate::text::{
    append_chars, char_is_control, chars_of, is_control, string_of, text_view,
};

verus! {

/// What a prompt is for.
#[derive(Clone, Copy, PartialEq, Eq, Structural, Debug)]
pub enum PromptMode {
    /// The input is only collected.
    Plain,
    /// The input is a search term, looked for after each key.
    Search,
}

/// How a prompt goes on after a key.
#[derive(Clone, Copy, PartialEq, Eq, Structural, Debug)]
pub enum PromptStep {
    /// The prompt stays open.
    Continue,
    /// The input was accepted.
    Accept,
    /// The prompt was cancelled, and the input discarded.
    Cancel,
}

/// A prompt, as mathematics.
pub struct PromptView {
    pub mode: PromptMode,
    /// The text shown before the input.
    pub label: Seq<char>,
    /// What has been typed.
    pub input: Seq<char>,
    /// The direction of the search, in a search prompt.
    pub direction: SearchDirection,
    /// Where the cursor stood when the prompt was opened.
    pub origin: Position,
}

/// An open prompt.
pub struct Prompt {
    mode: PromptMode,
    label: String,
    input: Vec<char>,
    direction: SearchDirection,
    origin: Position,
}

impl View for Prompt {
    type V = PromptView;

    closed spec fn view(&self) -> PromptView {
        PromptView {
            mode: self.mode,
            label: self.label@,
            input: self.input@,
            direction: self.direction,
            origin: self.origin,
        }
    }
}

/// The event is a key that went down with no modifier held.
pub open spec fn is_plain_press(event: KeyPress) -> bool {
    event.pressed && event.modifiers == Modifiers::Unmodified
}

/// How the prompt goes on after the key: Enter, or a newline character,
/// accepts; Escape cancels; every other event leaves the prompt open.
pub open spec fn step_of(event: KeyPress) -> PromptStep {
    if is_plain_press(event) && (event.key == Key::Enter || event.key == Key::Char('\n')) {
        PromptStep::Accept
    } else if is_plain_press(event) && event.key == Key::Esc {
        PromptStep::Cancel
    } else {
        PromptStep::Continue
    }
}

/// The input after the key: Backspace takes the last character away,
/// Escape takes all of them, and a character that is no control
/// character is added at the end.
pub open spec fn input_after(input: Seq<char>, event: KeyPress) -> Seq<char> {
    if !is_plain_press(event) {
        input
    } else {
        match event.key {
            Key::Backspace => if input.len() > 0 {
                input.drop_last()
            } else {
                input
            },
            Key::Esc => Seq::empty(),
            Key::Char(c) => if is_control(c) {
                input
            } else {
                input.push(c)
            },
            _ => input,
        }
    }
}

/// What a prompt gives back when it is closed: the input, or nothing
/// where the input is empty.
pub open spec fn answer_of(input: Seq<char>) -> Option<Seq<char>> {
    if input.len() == 0 {
        None
    } else {
        Some(input)
    }
}

impl Prompt {
    /// A prompt with the given label and no input, opened while the cursor
    /// stood at `origin`. A search begins in forward direction.
    pub fn new(mode: PromptMode, label: &str, origin: Position) -> (prompt: Prompt)
        ensures
            prompt@ == (PromptView {
                mode,
                label: label@,
                input: Seq::empty(),
                direction: SearchDirection::Forward,
                origin,
            }),
    {
        Prompt {
            mode,
            label: label.to_owned(),
            input: Vec::new(),
            direction: SearchDirection::Forward,
            origin,
        }
    }

    /// What the prompt is for.
    pub fn mode(&self) -> (mode: PromptMode)
        ensures
            mode == self@.mode,
    {
        self.mode
    }

    /// Where the cursor stood when the prompt was opened.
    pub fn origin(&self) -> (origin: Position)
        ensures
            origin == self@.origin,
    {
        self.origin
    }

    /// The direction of the search.
    pub fn direction(&self) -> (direction: SearchDirection)
        ensures
            direction == self@.direction,
    {
        self.direction
    }

    /// Sets the direction of the search.
    pub fn set_direction(&mut self, direction: SearchDirection)
        ensures
            final(self)@ == (PromptView { direction, ..old(self)@ }),
    {
        self.direction = direction;
    }

    /// What has been typed.
    pub fn input(&self) -> (input: String)
        ensures
            input@ == self@.input,
    {
        string_of(&self.input)
    }

    /// The line that shows the prompt: the label and, behind it, the
    /// input.
    pub fn line(&self) -> (line: String)
        ensures
            line@ == self@.label + self@.input,
    {
        let mut out = chars_of(self.label.as_str());
        append_chars(&mut out, &self.input);
        string_of(&out)
    }

    /// What the prompt gives back when it is closed.
    pub fn answer(&self) -> (answer: Option<String>)
        ensures
            text_view(answer) == answer_of(self@.input),
    {
        if self.input.len() == 0 {
            None
        } else {
            Some(string_of(&self.input))
        }
    }

    /// Takes a key: changes the input, and says how the prompt goes on.
    pub fn key(&mut self, event: &KeyPress) -> (step: PromptStep)
        ensures
            step == step_of(*event),
            final(self)@ == (PromptView { input: input_after(old(self)@.input, *event), ..old(self)@ }),
    {
        if !event.pressed {
            return PromptStep::Continue;
        }
        match event.modifiers {
            Modifiers::Unmodified => {},
            _ => {
                return PromptStep::Continue;
            },
        }
        match event.key {
            Key::Backspace => {
                if self.input.len() > 0 {
                    self.input.pop();
                }
                PromptStep::Continue
            },
            Key::Enter => PromptStep::Accept,
            Key::Char(c) => {
                if c == '\n' {
                    PromptStep::Accept
                } else {
                    if !char_is_control(c) {
                        self.input.push(c);
                    }
                    PromptStep::Continue
                }
            },
            Key::Esc => {
                self.input.clear();
                PromptStep::Cancel
            },
            _ => PromptStep::Continue,
        }
    }
}

} // verus!
