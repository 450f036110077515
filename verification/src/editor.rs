//! The state of the editor and what each key press does to it. The event
//! loop around it reads the keys, draws the screen and touches the files.

use vstd::prelude::*;
use vstd::string::StringExecFns;
use crate::document::{
    Document, DocumentView, delete_removes, delete_rows, highlight_limit, highlighted_rows,
    insert_rows, lemma_insert_then_delete, split_lines, term_of, valid_position,
};
use crate::error::{CopyError, EditorError};
use crate::filetype::{label_for, syntax_for};
use crate::keys::{Command, Key, KeyPress, Modifiers, command_for, command_of};
use crate::position::{Position, SearchDirection};
use crate::prompt::{
    Prompt, PromptMode, PromptStep, PromptView, answer_of, input_after, is_plain_press, step_of,
};
use crate::screen::{status_bar, status_bar_text};
use crate::search::next_match;
use crate::highlight::Category;
use crate::row::{cell_categories, expand_tabs, visible_slice};
use crate::status::StatusMessage;
use crate::text::{append_chars, chars_of, decimal, push_decimal, string_of, text_view};
use crate::viewport::{Movement, Size, move_cursor, moved, scroll, scrolled};

verus! {

/// How many times the quit key must be answered with a warning before it
/// closes a changed document.
pub const QUIT_TIMES: u8 = 1;

/// The state of the editor, as mathematics.
pub struct EditorView {
    pub should_quit: bool,
    pub cursor: Position,
    pub offset: Position,
    pub document: DocumentView,
    /// The text of the status message.
    pub status: Seq<char>,
    /// How many warnings the quit key still gives.
    pub quit_times: u8,
    /// The search term whose occurrences are marked on the screen.
    pub highlighted_word: Option<Seq<char>>,
}

/// What the event loop has to do after a key press.
#[derive(Clone, Copy, PartialEq, Eq, Structural, Debug)]
pub enum Request {
    /// Nothing but to go on.
    Continue,
    /// Save the document.
    Save,
    /// Open the search prompt.
    Search,
}

/// The message with which the editor starts: the help line, or the report
/// that the file named on the command line could not be read.
pub open spec fn initial_status(filename: Option<Seq<char>>, readable: bool) -> Seq<char> {
    if filename is Some && !readable {
        "ERR: Could not open file: "@ + filename->0
    } else {
        "HELP: Ctrl-F = find | Ctrl-S = save | Ctrl-Q = quit"@
    }
}

/// The warning that the quit key gives when the document has changes.
pub open spec fn quit_warning(times: u8) -> Seq<char> {
    "WARNING! File has unsaved changes. Press Ctrl-Q "@ + decimal(times as nat)
        + " more time to quit."@
}

/// The state after the quit key: a changed document is kept open, with a
/// warning, as long as warnings are left; otherwise the editor is to
/// quit.
pub open spec fn after_quit(e: EditorView) -> EditorView {
    if e.quit_times > 0 && e.document.dirty {
        EditorView { status: quit_warning(e.quit_times), quit_times: (e.quit_times - 1) as u8, ..e }
    } else {
        EditorView { should_quit: true, ..e }
    }
}

/// The state after a movement of the cursor; `page` is the height of the
/// screen.
pub open spec fn after_move(e: EditorView, movement: Movement, page: usize) -> EditorView {
    let to = moved(e.document.text(), e.cursor, movement, page);
    EditorView { cursor: Position { x: to.0 as usize, y: to.1 as usize }, ..e }
}

/// The report of an insertion that the document has refused.
pub open spec fn insert_failure(error: EditorError) -> Seq<char> {
    "Failed to paste content: "@ + error.spec_message()
}

/// The state after `c` is typed: the character is inserted at the cursor
/// and the cursor steps to the right. A cursor beyond the end sentinel is
/// reported instead.
pub open spec fn after_insert(e: EditorView, c: char, page: usize) -> EditorView {
    if e.cursor.y > e.document.rows.len() {
        EditorView { status: insert_failure(EditorError::OutOfBounds), ..e }
    } else {
        after_move(
            EditorView {
                document: DocumentView {
                    rows: insert_rows(e.document.rows, e.cursor, c),
                    dirty: true,
                    ..e.document
                },
                ..e
            },
            Movement::Right,
            page,
        )
    }
}

/// The state after a deletion at the cursor.
pub open spec fn after_delete(e: EditorView) -> EditorView {
    EditorView {
        document: DocumentView {
            rows: delete_rows(e.document.rows, e.cursor),
            dirty: e.document.dirty || delete_removes(e.document.rows, e.cursor),
            ..e.document
        },
        ..e
    }
}

/// The state after Backspace: but at the very beginning of the buffer,
/// the cursor steps to the left and what it has come to is deleted.
pub open spec fn after_backspace(e: EditorView, page: usize) -> EditorView {
    if e.cursor.x > 0 || e.cursor.y > 0 {
        after_delete(after_move(e, Movement::Left, page))
    } else {
        e
    }
}

/// The state after a command. Saving and searching change nothing by
/// themselves: they are handed to the event loop.
pub open spec fn after_command(e: EditorView, command: Command, page: usize) -> EditorView {
    match command {
        Command::Quit => after_quit(e),
        Command::Insert(c) => after_insert(e, c, page),
        Command::Move(movement) => after_move(e, movement, page),
        Command::Delete => after_delete(e),
        Command::Backspace => after_backspace(e, page),
        Command::Save | Command::Find | Command::Nothing => e,
    }
}

/// What a command leaves for the event loop to do.
pub open spec fn request_of(command: Command) -> Request {
    match command {
        Command::Save => Request::Save,
        Command::Find => Request::Search,
        _ => Request::Continue,
    }
}

/// The state after the offset has followed the cursor.
pub open spec fn after_scroll(e: EditorView, screen: Size) -> EditorView {
    EditorView {
        offset: Position {
            x: scrolled(e.cursor.x, e.offset.x, screen.width) as usize,
            y: scrolled(e.cursor.y, e.offset.y, screen.height) as usize,
        },
        ..e
    }
}

/// The cursor lies inside the window of the screen, on each axis on
/// which the screen has cells.
pub open spec fn cursor_in_view(e: EditorView, screen: Size) -> bool {
    &&& screen.width > 0 ==> e.offset.x <= e.cursor.x < e.offset.x + screen.width
    &&& screen.height > 0 ==> e.offset.y <= e.cursor.y < e.offset.y + screen.height
}

/// The state after an event is done with: the offset follows the cursor,
/// and a used-up quit warning is taken back together with its message.
pub open spec fn after_event(e: EditorView, screen: Size) -> EditorView {
    let s = after_scroll(e, screen);
    if s.quit_times < QUIT_TIMES {
        EditorView { quit_times: QUIT_TIMES, status: Seq::empty(), ..s }
    } else {
        s
    }
}

/// The direction of the search after an event in the search prompt: an
/// arrow to the left or upward turns it backward, any other key forward,
/// and an event that is no key leaves it.
pub open spec fn direction_after(direction: SearchDirection, event: Option<KeyPress>) -> SearchDirection {
    match event {
        Some(press) => if is_plain_press(press) && (press.key == Key::Left || press.key == Key::Up) {
            SearchDirection::Backward
        } else {
            SearchDirection::Forward
        },
        None => direction,
    }
}

/// The event asks for the next match: an arrow to the right or downward.
pub open spec fn asks_next(event: Option<KeyPress>) -> bool {
    event is Some && is_plain_press(event->0) && (event->0.key == Key::Right || event->0.key
        == Key::Down)
}

/// The state after an event in the search prompt, with `query` typed so
/// far and the search in `direction` before the event. Where the next
/// match is asked for, the cursor first steps to the right. Then the
/// query is searched from the cursor in the direction that the event
/// gives: the cursor goes to the match, and the offset follows it; where
/// there is none, a step to the right is taken back. The query becomes
/// the highlighted word.
pub open spec fn after_search_key(
    e: EditorView,
    query: Seq<char>,
    direction: SearchDirection,
    event: Option<KeyPress>,
    screen: Size,
) -> EditorView {
    let stepped = if asks_next(event) {
        after_move(e, Movement::Right, screen.height)
    } else {
        e
    };
    let landed = match next_match(
        stepped.document.text(),
        query,
        stepped.cursor,
        direction_after(direction, event),
    ) {
        Some(at) => after_scroll(EditorView { cursor: at, ..stepped }, screen),
        None => if asks_next(event) {
            after_move(stepped, Movement::Left, screen.height)
        } else {
            stepped
        },
    };
    EditorView { highlighted_word: Some(query), ..landed }
}

/// The state after a prompt is closed. Its line leaves the status
/// message. A search that has ended without a query puts the cursor back
/// where it stood when the prompt was opened, and the offset follows; and
/// after any search no word is highlighted any more.
pub open spec fn after_prompt(e: EditorView, prompt: PromptView, screen: Size) -> EditorView {
    let cleared = EditorView { status: Seq::empty(), ..e };
    match prompt.mode {
        PromptMode::Plain => cleared,
        PromptMode::Search => {
            let back = if answer_of(prompt.input) is None {
                after_scroll(EditorView { cursor: prompt.origin, ..cleared }, screen)
            } else {
                cleared
            };
            EditorView { highlighted_word: None, ..back }
        },
    }
}

/// `a` and `b`, where `b` is what is left of the number range.
pub open spec fn saturating_sum(a: usize, b: usize) -> usize {
    if a + b > usize::MAX {
        usize::MAX
    } else {
        (a + b) as usize
    }
}

/// The editor: a document, the cursor in it, the scroll offset of the
/// screen, and the status message.
pub struct Editor {
    should_quit: bool,
    cursor_position: Position,
    offset: Position,
    document: Document,
    status_message: StatusMessage,
    quit_times: u8,
    highlighted_word: Option<String>,
}

impl View for Editor {
    type V = EditorView;

    closed spec fn view(&self) -> EditorView {
        EditorView {
            should_quit: self.should_quit,
            cursor: self.cursor_position,
            offset: self.offset,
            document: self.document@,
            status: self.status_message@,
            quit_times: self.quit_times,
            highlighted_word: text_view(self.highlighted_word),
        }
    }
}

fn joined(head: &str, tail: &str) -> (text: String)
    ensures
        text@ == head@ + tail@,
{
    String::from_str(head).concat(tail)
}

fn quit_warning_text(times: u8) -> (text: String)
    ensures
        text@ == quit_warning(times),
{
    let mut out = chars_of("WARNING! File has unsaved changes. Press Ctrl-Q ");
    push_decimal(&mut out, times as usize);
    let tail = chars_of(" more time to quit.");
    append_chars(&mut out, &tail);
    string_of(&out)
}

impl Editor {
    /// The document of the editor is well formed.
    pub closed spec fn wf(&self) -> bool {
        self.document.wf()
    }

    /// The editor at its start. `filename` is the file named on the
    /// command line, if one was, and `contents` what reading it has
    /// brought. A file that could not be read leaves the editor with an
    /// empty document and a report.
    pub fn new(filename: Option<&str>, contents: Option<&str>) -> (editor: Editor)
        ensures
            editor.wf(),
            !editor@.should_quit,
            editor@.cursor == (Position { x: 0, y: 0 }),
            editor@.offset == (Position { x: 0, y: 0 }),
            editor@.quit_times == QUIT_TIMES,
            editor@.highlighted_word is None,
            editor@.status == initial_status(
                match filename {
                    Some(name) => Some(name@),
                    None => None,
                },
                contents is Some,
            ),
            !editor@.document.dirty,
            filename is Some && contents is Some ==> editor@.document.filename == Some(
                filename->0@,
            ) && editor@.document.text() == split_lines(contents->0@),
            filename is None || contents is None ==> editor@.document.filename is None
                && editor@.document.rows.len() == 0,
    {
        let mut status = String::from_str("HELP: Ctrl-F = find | Ctrl-S = save | Ctrl-Q = quit");
        let document = match filename {
            Some(name) => match Document::open(name, contents) {
                Ok(document) => document,
                Err(_) => {
                    status = joined("ERR: Could not open file: ", name);
                    Document::new()
                },
            },
            None => Document::new(),
        };
        Editor {
            should_quit: false,
            cursor_position: Position { x: 0, y: 0 },
            offset: Position { x: 0, y: 0 },
            document,
            status_message: StatusMessage::from(status),
            quit_times: QUIT_TIMES,
            highlighted_word: None,
        }
    }

    /// Whether the editor is to quit.
    pub fn should_quit(&self) -> (quit: bool)
        ensures
            quit == self@.should_quit,
    {
        self.should_quit
    }

    /// The cursor.
    pub fn cursor_position(&self) -> (cursor: Position)
        ensures
            cursor == self@.cursor,
    {
        self.cursor_position
    }

    /// The scroll offset: the buffer position of the top left cell of the
    /// screen.
    pub fn offset(&self) -> (offset: Position)
        ensures
            offset == self@.offset,
    {
        self.offset
    }

    /// The document.
    pub fn document(&self) -> (document: &Document)
        requires
            self.wf(),
        ensures
            document@ == self@.document,
            document.wf(),
    {
        &self.document
    }

    /// The status message.
    pub fn status_message(&self) -> (status: &StatusMessage)
        ensures
            status@ == self@.status,
    {
        &self.status_message
    }

    /// Sets the status message.
    pub fn set_status(&mut self, message: String)
        requires
            old(self).wf(),
        ensures
            final(self).wf(),
            final(self)@ == (EditorView { status: message@, ..old(self)@ }),
    {
        self.status_message = StatusMessage::from(message);
    }

    /// Answers the quit key.
    pub fn quit(&mut self)
        requires
            old(self).wf(),
        ensures
            final(self).wf(),
            final(self)@ == after_quit(old(self)@),
    {
        if self.quit_times > 0 && self.document.is_changed() {
            self.status_message = StatusMessage::from(quit_warning_text(self.quit_times));
            self.quit_times -= 1;
        } else {
            self.should_quit = true;
        }
    }

    /// Moves the cursor; `page` is the height of the screen. A cursor
    /// that was valid stays valid.
    pub fn move_cursor(&mut self, movement: Movement, page: usize)
        requires
            old(self).wf(),
        ensures
            final(self).wf(),
            final(self)@ == after_move(old(self)@, movement, page),
            old(self)@.cursor.y <= old(self)@.document.rows.len() ==> valid_position(
                final(self)@.document.text(),
                final(self)@.cursor,
            ),
    {
        self.cursor_position = move_cursor(&self.document, self.cursor_position, movement, page);
    }

    /// Brings the scroll offset after the cursor. On a screen with cells
    /// the cursor lies inside the window afterwards.
    pub fn scroll(&mut self, screen: Size)
        requires
            old(self).wf(),
        ensures
            final(self).wf(),
            final(self)@ == after_scroll(old(self)@, screen),
            cursor_in_view(final(self)@, screen),
    {
        self.offset = scroll(self.cursor_position, self.offset, screen);
    }

    /// Types `c` at the cursor.
    pub fn insert_char(&mut self, c: char, page: usize)
        requires
            old(self).wf(),
        ensures
            final(self).wf(),
            final(self)@ == after_insert(old(self)@, c, page),
    {
        match self.document.insert(&self.cursor_position, c) {
            Ok(_) => {
                self.move_cursor(Movement::Right, page);
            },
            Err(error) => {
                let report = error.message();
                self.status_message = StatusMessage::from(
                    joined("Failed to paste content: ", report.as_str()),
                );
            },
        }
    }

    /// Deletes at the cursor.
    pub fn delete(&mut self)
        requires
            old(self).wf(),
        ensures
            final(self).wf(),
            final(self)@ == after_delete(old(self)@),
    {
        self.document.delete(&self.cursor_position);
    }

    /// Deletes what stands before the cursor.
    pub fn backspace(&mut self, page: usize)
        requires
            old(self).wf(),
        ensures
            final(self).wf(),
            final(self)@ == after_backspace(old(self)@, page),
    {
        if self.cursor_position.x > 0 || self.cursor_position.y > 0 {
            self.move_cursor(Movement::Left, page);
            self.document.delete(&self.cursor_position);
        }
    }

    /// Does what the key press stands for in the command table, and says
    /// what is left for the event loop to do. `screen` is the size of
    /// the text area.
    pub fn process_key(&mut self, event: &KeyPress, screen: Size) -> (request: Request)
        requires
            old(self).wf(),
        ensures
            final(self).wf(),
            final(self)@ == after_command(old(self)@, command_of(*event), screen.height),
            request == request_of(command_of(*event)),
    {
        match command_for(event) {
            Command::Quit => {
                self.quit();
                Request::Continue
            },
            Command::Save => Request::Save,
            Command::Find => Request::Search,
            Command::Insert(c) => {
                self.insert_char(c, screen.height);
                Request::Continue
            },
            Command::Move(movement) => {
                self.move_cursor(movement, screen.height);
                Request::Continue
            },
            Command::Delete => {
                self.delete();
                Request::Continue
            },
            Command::Backspace => {
                self.backspace(screen.height);
                Request::Continue
            },
            Command::Nothing => Request::Continue,
        }
    }

    /// Ends the handling of an event: scrolls, and takes a used-up quit
    /// warning back. On a screen with cells the cursor lies inside the
    /// window afterwards.
    pub fn finish_event(&mut self, screen: Size)
        requires
            old(self).wf(),
        ensures
            final(self).wf(),
            final(self)@ == after_event(old(self)@, screen),
            cursor_in_view(final(self)@, screen),
    {
        self.scroll(screen);
        if self.quit_times < QUIT_TIMES {
            self.quit_times = QUIT_TIMES;
            self.status_message = StatusMessage::from(String::new());
        }
    }

    /// Highlights the rows down to the bottom of the screen, with the
    /// occurrences of the search term marked. This never fails.
    pub fn highlight_screen(&mut self, screen: Size) -> (result: Result<(), EditorError>)
        requires
            old(self).wf(),
        ensures
            final(self).wf(),
            result is Ok,
            final(self)@ == (EditorView {
                document: DocumentView {
                    rows: highlighted_rows(
                        syntax_for(old(self)@.document.filename),
                        old(self)@.document.rows,
                        term_of(old(self)@.highlighted_word),
                        highlight_limit(
                            Some(saturating_sum(old(self)@.offset.y, screen.height)),
                            old(self)@.document.rows.len() as int,
                        ),
                    ),
                    ..old(self)@.document
                },
                ..old(self)@
            }),
    {
        let until = self.offset.y.saturating_add(screen.height);
        self.document.highlight(&self.highlighted_word, Some(until))
    }

    /// Where on the screen the cursor stands: its distance from the
    /// offset, and zero where it lies before the offset.
    pub fn screen_cursor(&self) -> (at: Position)
        ensures
            at.x == if self@.cursor.x > self@.offset.x {
                self@.cursor.x - self@.offset.x
            } else {
                0
            },
            at.y == if self@.cursor.y > self@.offset.y {
                self@.cursor.y - self@.offset.y
            } else {
                0
            },
    {
        Position {
            x: self.cursor_position.x.saturating_sub(self.offset.x),
            y: self.cursor_position.y.saturating_sub(self.offset.y),
        }
    }

    /// What line `terminal_row` of the screen shows of the buffer: the
    /// drawn form of the row that the offset brings there, cut to the
    /// width of the screen, or nothing below the end of the buffer.
    pub fn visible_row(&self, terminal_row: usize, screen: Size) -> (cells: Option<String>)
        requires
            self.wf(),
        ensures
            cells is Some == (self@.offset.y + terminal_row < self@.document.rows.len()),
            cells is Some ==> cells->0@ == visible_slice(
                expand_tabs(self@.document.rows[self@.offset.y + terminal_row].text),
                self@.offset.x as int,
                saturating_sum(self@.offset.x, screen.width) as int,
            ),
    {
        let y = self.offset.y.saturating_add(terminal_row);
        proof {
            self.document.lemma_text_fits();
        }
        match self.document.row(y) {
            Some(row) => {
                let start = self.offset.x;
                let end = start.saturating_add(screen.width);
                Some(row.render(start, end))
            },
            None => None,
        }
    }

    /// The categories of the cells that `visible_row` returns for the same
    /// line, cell by cell.
    pub fn visible_categories(&self, terminal_row: usize, screen: Size) -> (cells: Option<
        Vec<Category>,
    >)
        requires
            self.wf(),
        ensures
            cells is Some == (self@.offset.y + terminal_row < self@.document.rows.len()),
            cells is Some ==> cells->0@ == visible_slice(
                cell_categories(
                    self@.document.rows[self@.offset.y + terminal_row].text,
                    self@.document.rows[self@.offset.y + terminal_row].spans,
                ),
                self@.offset.x as int,
                saturating_sum(self@.offset.x, screen.width) as int,
            ),
    {
        let y = self.offset.y.saturating_add(terminal_row);
        proof {
            self.document.lemma_text_fits();
        }
        match self.document.row(y) {
            Some(row) => {
                let start = self.offset.x;
                let end = start.saturating_add(screen.width);
                Some(row.render_categories(start, end))
            },
            None => None,
        }
    }

    /// Whether line `terminal_row` of the screen shows the welcome
    /// message: the line a third down the screen, while the document has
    /// no row.
    pub fn shows_welcome(&self, terminal_row: usize, screen: Size) -> (shown: bool)
        ensures
            shown == (self@.document.rows.len() == 0 && terminal_row == screen.height / 3),
    {
        self.document.is_empty() && terminal_row == screen.height / 3
    }

    /// The text of the row under the cursor, for the clipboard.
    pub fn copy_content(&self) -> (result: Result<String, CopyError>)
        requires
            self.wf(),
        ensures
            self@.cursor.y < self@.document.rows.len() ==> result is Ok && result->Ok_0@
                == self@.document.rows[self@.cursor.y as int].text,
            self@.cursor.y >= self@.document.rows.len() ==> result is Err,
    {
        match self.document.row(self.cursor_position.y) {
            Some(row) => Ok(row.as_text()),
            None => Err(CopyError),
        }
    }

    /// Takes what reading the clipboard has brought, or nothing if the
    /// clipboard could not be read, and gives the text to paste. An empty
    /// clipboard gives a blank and moves the cursor one row down.
    pub fn paste_content(&mut self, contents: Option<String>) -> (result: Result<
        String,
        EditorError,
    >)
        requires
            old(self).wf(),
        ensures
            final(self).wf(),
            contents is None ==> result is Err && result->Err_0 == EditorError::ClipboardUnavailable
                && final(self)@ == old(self)@,
            contents is Some && contents->0@.len() > 0 ==> result is Ok && result->Ok_0@
                == contents->0@ && final(self)@ == old(self)@,
            contents is Some && contents->0@.len() == 0 ==> result is Ok && result->Ok_0@ == " "@
                && final(self)@ == (EditorView {
                cursor: Position {
                    x: old(self)@.cursor.x,
                    y: saturating_sum(old(self)@.cursor.y, 1),
                },
                ..old(self)@
            }),
    {
        match contents {
            Some(text) => {
                if text.as_str().unicode_len() == 0 {
                    self.cursor_position.y = self.cursor_position.y.saturating_add(1);
                    Ok(String::from_str(" "))
                } else {
                    Ok(text)
                }
            },
            None => Err(EditorError::ClipboardUnavailable),
        }
    }

    /// Opens a prompt with the given label.
    pub fn begin_prompt(&self, mode: PromptMode, label: &str) -> (prompt: Prompt)
        ensures
            prompt@ == (PromptView {
                mode,
                label: label@,
                input: Seq::empty(),
                direction: SearchDirection::Forward,
                origin: self@.cursor,
            }),
    {
        Prompt::new(mode, label, self.cursor_position)
    }

    /// Puts the line of the prompt into the status message.
    pub fn show_prompt(&mut self, prompt: &Prompt)
        requires
            old(self).wf(),
        ensures
            final(self).wf(),
            final(self)@ == (EditorView { status: prompt@.label + prompt@.input, ..old(self)@ }),
    {
        self.status_message = StatusMessage::from(prompt.line());
    }

    /// What the search prompt does after an event, with the query as it
    /// is typed by now: it looks for the query and takes the cursor to
    /// it. `event` is the key event, or nothing for an event that is no
    /// key.
    pub fn search_key(&mut self, prompt: &mut Prompt, event: Option<KeyPress>, screen: Size)
        requires
            old(self).wf(),
        ensures
            final(self).wf(),
            final(prompt)@ == (PromptView {
                direction: direction_after(old(prompt)@.direction, event),
                ..old(prompt)@
            }),
            final(self)@ == after_search_key(
                old(self)@,
                old(prompt)@.input,
                old(prompt)@.direction,
                event,
                screen,
            ),
    {
        let mut stepped = false;
        match event {
            Some(press) => {
                let mut direction = SearchDirection::Forward;
                if press.pressed && press.modifiers == Modifiers::Unmodified {
                    match press.key {
                        Key::Right | Key::Down => {
                            self.move_cursor(Movement::Right, screen.height);
                            stepped = true;
                        },
                        Key::Left | Key::Up => {
                            direction = SearchDirection::Backward;
                        },
                        _ => {},
                    }
                }
                prompt.set_direction(direction);
            },
            None => {},
        }
        let query = prompt.input();
        match self.document.find(query.as_str(), &self.cursor_position, prompt.direction()) {
            Some(at) => {
                self.cursor_position = at;
                self.scroll(screen);
            },
            None => {
                if stepped {
                    self.move_cursor(Movement::Left, screen.height);
                }
            },
        }
        self.highlighted_word = Some(query);
    }

    /// Hands an event to an open prompt: the key changes the input, and
    /// while the prompt stays open a search prompt searches. `event` is
    /// the key event, or nothing for an event that is no key.
    pub fn prompt_key(&mut self, prompt: &mut Prompt, event: Option<KeyPress>, screen: Size) -> (step:
        PromptStep)
        requires
            old(self).wf(),
        ensures
            final(self).wf(),
            step == match event {
                Some(press) => step_of(press),
                None => PromptStep::Continue,
            },
            final(prompt)@.input == match event {
                Some(press) => input_after(old(prompt)@.input, press),
                None => old(prompt)@.input,
            },
            final(prompt)@.mode == old(prompt)@.mode,
            final(prompt)@.label == old(prompt)@.label,
            final(prompt)@.origin == old(prompt)@.origin,
            step == PromptStep::Continue && old(prompt)@.mode == PromptMode::Search ==> final(prompt)@.direction == direction_after(old(prompt)@.direction, event) && final(self)@
                == after_search_key(
                old(self)@,
                final(prompt)@.input,
                old(prompt)@.direction,
                event,
                screen,
            ),
            !(step == PromptStep::Continue && old(prompt)@.mode == PromptMode::Search) ==> final(prompt)@.direction == old(prompt)@.direction && final(self)@ == old(self)@,
    {
        let step = match event {
            Some(press) => prompt.key(&press),
            None => PromptStep::Continue,
        };
        match step {
            PromptStep::Continue => match prompt.mode() {
                PromptMode::Search => {
                    self.search_key(prompt, event, screen);
                },
                PromptMode::Plain => {},
            },
            _ => {},
        }
        step
    }

    /// Closes a prompt and gives its answer: the input, or nothing where
    /// the input is empty.
    pub fn end_prompt(&mut self, prompt: &Prompt, screen: Size) -> (answer: Option<String>)
        requires
            old(self).wf(),
        ensures
            final(self).wf(),
            text_view(answer) == answer_of(prompt@.input),
            final(self)@ == after_prompt(old(self)@, prompt@, screen),
    {
        self.status_message = StatusMessage::from(String::new());
        let answer = prompt.answer();
        match prompt.mode() {
            PromptMode::Search => {
                if answer.is_none() {
                    self.cursor_position = prompt.origin();
                    self.scroll(screen);
                }
                self.highlighted_word = None;
            },
            PromptMode::Plain => {},
        }
        answer
    }

    /// Whether the document has to be given a name before it can be
    /// saved.
    pub fn needs_filename(&self) -> (needed: bool)
        ensures
            needed == self@.document.filename is None,
    {
        self.document.filename().is_none()
    }

    /// Takes the answer of the prompt for a file name: the document gets
    /// the name, or, without an answer, the saving is called off and the
    /// status message says so. Returns whether the saving goes on.
    pub fn save_as(&mut self, name: Option<String>) -> (goes_on: bool)
        requires
            old(self).wf(),
        ensures
            final(self).wf(),
            goes_on == name is Some,
            name is Some ==> final(self)@ == (EditorView {
                document: DocumentView { filename: text_view(name), ..old(self)@.document },
                ..old(self)@
            }),
            name is None ==> final(self)@ == (EditorView {
                status: "Save aborted."@,
                ..old(self)@
            }),
    {
        match name {
            Some(text) => {
                self.document.set_filename(Some(text));
                true
            },
            None => {
                self.status_message = StatusMessage::from(String::from_str("Save aborted."));
                false
            },
        }
    }

    /// Takes the outcome of writing the document to its file. A write
    /// that succeeded leaves the document unchanged against its file; one
    /// that failed leaves it as it was. The status message reports
    /// either.
    pub fn save_finished(&mut self, written: bool)
        requires
            old(self).wf(),
        ensures
            final(self).wf(),
            written ==> final(self)@ == (EditorView {
                document: DocumentView { dirty: false, ..old(self)@.document },
                status: "File saved successfully."@,
                ..old(self)@
            }),
            !written ==> final(self)@ == (EditorView {
                status: "Error writing file!"@,
                ..old(self)@
            }),
    {
        match self.document.saved(written) {
            Ok(_) => {
                self.status_message = StatusMessage::from(
                    String::from_str("File saved successfully."),
                );
            },
            Err(_) => {
                self.status_message = StatusMessage::from(String::from_str("Error writing file!"));
            },
        }
    }

    /// The text of the status bar on a screen `width` cells wide.
    pub fn status_bar(&self, width: usize) -> (bar: String)
        requires
            self.wf(),
        ensures
            bar@ == status_bar_text(
                self@.document.filename,
                self@.document.rows.len() as usize,
                self@.document.dirty,
                label_for(self@.document.filename),
                saturating_sum(self@.cursor.y, 1),
                width,
            ),
    {
        let label = self.document.file_type();
        status_bar(
            self.document.filename(),
            self.document.len(),
            self.document.is_changed(),
            label.as_str(),
            self.cursor_position.y.saturating_add(1),
            width,
        )
    }
}

/// Backspace undoes typing: after a character other than a newline is
/// typed at a valid cursor inside the buffer, in a row that has room for
/// it, Backspace gives every row its former text and the cursor its
/// former place.
pub proof fn lemma_backspace_undoes_typing(e: EditorView, c: char, page: usize)
    requires
        e.cursor.y < e.document.rows.len(),
        e.cursor.x <= e.document.rows[e.cursor.y as int].text.len(),
        e.document.rows[e.cursor.y as int].text.len() < usize::MAX,
        c != '\n',
    ensures
        after_backspace(after_insert(e, c, page), page).document.text() == e.document.text(),
        after_backspace(after_insert(e, c, page), page).cursor == e.cursor,
{
    let typed = after_insert(e, c, page);
    let grown = insert_rows(e.document.rows, e.cursor, c);
    assert(grown[e.cursor.y as int].text.len() == e.document.rows[e.cursor.y as int].text.len() + 1);
    assert(typed.cursor == Position { x: (e.cursor.x + 1) as usize, y: e.cursor.y });
    let back = after_move(typed, Movement::Left, page);
    assert(back.cursor == e.cursor);
    lemma_insert_then_delete(e.document.rows, e.cursor, c);
}

} // verus!
