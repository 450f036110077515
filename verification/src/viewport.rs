//! The cursor and the scroll offset: how a movement changes the cursor in a
//! buffer of a given shape, and how the offset follows the cursor.

use vstd::prelude::*;
use crate::document::{Document, valid_position};
use crate::position::Position;

verus! {

/// A movement of the cursor.
#[derive(Clone, Copy, PartialEq, Eq, Structural, Debug)]
pub enum Movement {
    Up,
    Down,
    Left,
    Right,
    PageUp,
    PageDown,
    Home,
    End,
}

/// The size of the text area of the screen, in character cells.
#[derive(Clone, Copy, PartialEq, Eq, Structural, Debug)]
pub struct Size {
    pub width: usize,
    pub height: usize,
}

/// The length of row `y`; rows beyond the buffer have length zero.
pub open spec fn row_len(text: Seq<Seq<char>>, y: int) -> int {
    if 0 <= y < text.len() {
        text[y].len() as int
    } else {
        0
    }
}

/// Where the movement leads before the column is fitted to the new row.
/// `page` is the height of the screen, the distance of a page movement.
pub open spec fn step(text: Seq<Seq<char>>, at: Position, movement: Movement, page: usize) -> (
    int,
    int,
) {
    let x = at.x as int;
    let y = at.y as int;
    match movement {
        Movement::Up => (
            x,
            if y > 0 {
                y - 1
            } else {
                0
            },
        ),
        Movement::Down => (
            x,
            if y < text.len() {
                y + 1
            } else {
                y
            },
        ),
        Movement::Left => if x > 0 {
            (x - 1, y)
        } else if y > 0 {
            (row_len(text, y - 1), y - 1)
        } else {
            (x, y)
        },
        Movement::Right => if x < row_len(text, y) {
            (x + 1, y)
        } else if y < text.len() {
            (0, y + 1)
        } else {
            (x, y)
        },
        Movement::PageUp => (
            x,
            if y > page {
                y - page
            } else {
                0
            },
        ),
        Movement::PageDown => (
            x,
            if y + page < text.len() {
                y + page
            } else {
                text.len() as int
            },
        ),
        Movement::Home => (0, y),
        Movement::End => (row_len(text, y), y),
    }
}

/// The cursor after the movement: where the step leads, with the column
/// brought back to the length of the row it has come to.
pub open spec fn moved(text: Seq<Seq<char>>, at: Position, movement: Movement, page: usize) -> (
    int,
    int,
) {
    let (x, y) = step(text, at, movement, page);
    if x > row_len(text, y) {
        (row_len(text, y), y)
    } else {
        (x, y)
    }
}

fn length_of_row(document: &Document, y: usize) -> (n: usize)
    requires
        document.wf(),
    ensures
        n == row_len(document@.text(), y as int),
{
    match document.row(y) {
        Some(row) => row.length(),
        None => 0,
    }
}

/// Moves the cursor `at` in `document` by `movement`; `page` is the height
/// of the screen. A cursor whose row is at most the end sentinel comes to
/// a valid position.
pub fn move_cursor(document: &Document, at: Position, movement: Movement, page: usize) -> (to:
    Position)
    requires
        document.wf(),
    ensures
        (to.x as int, to.y as int) == moved(document@.text(), at, movement, page),
        at.y <= document@.rows.len() ==> valid_position(document@.text(), to),
{
    let Position { mut x, mut y } = at;
    let height = document.len();
    let width = length_of_row(document, y);
    match movement {
        Movement::Up => {
            y = y.saturating_sub(1);
        },
        Movement::Down => {
            if y < height {
                y = y + 1;
            }
        },
        Movement::Left => {
            if x > 0 {
                x -= 1;
            } else if y > 0 {
                y -= 1;
                x = length_of_row(document, y);
            }
        },
        Movement::Right => {
            if x < width {
                x += 1;
            } else if y < height {
                y += 1;
                x = 0;
            }
        },
        Movement::PageUp => {
            y = if y > page {
                y - page
            } else {
                0
            };
        },
        Movement::PageDown => {
            y = match y.checked_add(page) {
                Some(target) => if target < height {
                    target
                } else {
                    height
                },
                None => height,
            };
        },
        Movement::Home => {
            x = 0;
        },
        Movement::End => {
            x = width;
        },
    }
    let width = length_of_row(document, y);
    if x > width {
        x = width;
    }
    Position { x, y }
}

/// The offset on one axis after the cursor has come to `cursor`, for a
/// window of `size` cells that began at `offset`. An offset whose window
/// holds the cursor stays. Otherwise it goes no further than it must: to
/// the cursor, if the cursor lies before the window, and to the place
/// from which the cursor is the last cell of the window, if it lies
/// behind. A window without cells holds nothing: the offset goes one past
/// the cursor, as far as the number range allows.
pub open spec fn scrolled(cursor: usize, offset: usize, size: usize) -> int {
    if cursor < offset {
        cursor as int
    } else if cursor >= offset + size {
        if cursor - size + 1 > usize::MAX {
            usize::MAX as int
        } else {
            cursor - size + 1
        }
    } else {
        offset as int
    }
}

fn scroll_axis(cursor: usize, offset: usize, size: usize) -> (to: usize)
    ensures
        to == scrolled(cursor, offset, size),
{
    if cursor < offset {
        cursor
    } else {
        match offset.checked_add(size) {
            Some(limit) => if cursor >= limit {
                (cursor - size).saturating_add(1)
            } else {
                offset
            },
            None => offset,
        }
    }
}

/// The scroll offset after the cursor has changed. On a screen with at
/// least one cell on an axis, the cursor lies inside the window on that
/// axis afterwards.
pub fn scroll(cursor: Position, offset: Position, screen: Size) -> (to: Position)
    ensures
        to.x == scrolled(cursor.x, offset.x, screen.width),
        to.y == scrolled(cursor.y, offset.y, screen.height),
        screen.width > 0 ==> to.x <= cursor.x < to.x + screen.width,
        screen.height > 0 ==> to.y <= cursor.y < to.y + screen.height,
{
    Position {
        x: scroll_axis(cursor.x, offset.x, screen.width),
        y: scroll_axis(cursor.y, offset.y, screen.height),
    }
}

/// Scrolling is least: of all offsets whose window holds the cursor, the
/// one chosen lies nearest to the offset before.
pub proof fn lemma_scroll_is_least(cursor: usize, offset: usize, size: usize, other: int)
    requires
        size > 0,
        other <= cursor < other + size,
    ensures
        scrolled(cursor, offset, size) <= cursor < scrolled(cursor, offset, size) + size,
        offset <= scrolled(cursor, offset, size) <= other || other <= scrolled(
            cursor,
            offset,
            size,
        ) <= offset,
{
}

} // verus!
