//! The text buffer: an ordered sequence of rows with a file name and a
//! dirty flag.

use vstd::prelude::*;
use crate::error::EditorError;
use crate::filetype::{FileType, label_for, syntax_for};
use crate::highlight::{LexState, SyntaxView, exit_state, row_spans};
use crate::position::Position;
use crate::row::{Row, RowView, clamp, plain};
use crate::search::text_fits;
use crate::text::{append_chars, chars_of, string_of, text_view};

verus! {

/// What a document holds, as mathematics.
pub struct DocumentView {
    /// The rows in document order.
    pub rows: Seq<RowView>,
    /// The name of the file behind the buffer, if it has one.
    pub filename: Option<Seq<char>>,
    /// Whether the buffer has changed since it was loaded or saved.
    pub dirty: bool,
}

/// The raw text of each row.
pub open spec fn text_of(rows: Seq<RowView>) -> Seq<Seq<char>> {
    Seq::new(rows.len(), |i: int| rows[i].text)
}

impl DocumentView {
    /// The raw text of each row.
    pub open spec fn text(self) -> Seq<Seq<char>> {
        text_of(self.rows)
    }
}

/// `at` lies inside the buffer or on its end sentinel: its row is at most
/// the number of rows, and its column at most the length of its row (zero
/// on the sentinel row).
pub open spec fn valid_position(text: Seq<Seq<char>>, at: Position) -> bool {
    &&& at.y <= text.len()
    &&& at.y < text.len() ==> at.x <= text[at.y as int].len()
    &&& at.y == text.len() ==> at.x == 0
}

/// The rows after `c` is inserted at `at`, for `at.y` up to the number of
/// rows. A newline cuts the row at the column and puts the cut-off part
/// into a new row directly below; on the sentinel row it adds an empty
/// row. Any other character goes into its row before the column, and on
/// the sentinel row into a new last row of its own. A column beyond the
/// end of its row counts as the end of the row. Rows that change lose
/// their highlight spans.
pub open spec fn insert_rows(rows: Seq<RowView>, at: Position, c: char) -> Seq<RowView> {
    if at.y >= rows.len() {
        if c == '\n' {
            rows.push(plain(Seq::empty()))
        } else {
            rows.push(plain(seq![c]))
        }
    } else {
        let row = rows[at.y as int].text;
        let col = clamp(at.x as int, row.len() as int);
        if c == '\n' {
            rows.update(at.y as int, plain(row.take(col))).insert(at.y + 1, plain(row.skip(col)))
        } else {
            rows.update(at.y as int, plain(row.insert(col, c)))
        }
    }
}

/// Whether deleting at `at` takes anything out of the rows: a character
/// under `at`, or the row boundary at the end of a row that has a
/// successor.
pub open spec fn delete_removes(rows: Seq<RowView>, at: Position) -> bool {
    at.y < rows.len() && (at.x < rows[at.y as int].text.len() || (at.x == rows[at.y as int].text.len()
        && at.y + 1 < rows.len()))
}

/// The rows after a deletion at `at`. At the end of a row that has a
/// successor the two rows become one; inside a row the character at the
/// column leaves; everywhere else nothing changes.
pub open spec fn delete_rows(rows: Seq<RowView>, at: Position) -> Seq<RowView> {
    if !delete_removes(rows, at) {
        rows
    } else {
        let row = rows[at.y as int].text;
        if at.x == row.len() {
            rows.update(at.y as int, plain(row + rows[at.y + 1].text)).remove(at.y + 1)
        } else {
            rows.update(at.y as int, plain(row.remove(at.x as int)))
        }
    }
}

/// The index of the first newline of `s` at or after `from`, or the length
/// of `s` if there is none.
pub open spec fn line_end(s: Seq<char>, from: int) -> int
    decreases s.len() - from,
{
    if from >= s.len() || s[from] == '\n' {
        from
    } else {
        line_end(s, from + 1)
    }
}

/// A line without its carriage return, where the line was ended by a line
/// feed and the carriage return stood directly before it.
pub open spec fn strip_return(line: Seq<char>, ended: bool) -> Seq<char> {
    if ended && line.len() > 0 && line.last() == '\r' {
        line.drop_last()
    } else {
        line
    }
}

/// The lines of `s` that begin at or after `from`. A line ends with a line
/// feed, or a carriage return and a line feed, neither of which belongs to
/// it; the last line may end with the text.
pub open spec fn lines_from(s: Seq<char>, from: int) -> Seq<Seq<char>>
    decreases s.len() - from,
    via lines_from_decreases
{
    if from < 0 || from >= s.len() {
        Seq::empty()
    } else {
        let end = line_end(s, from);
        if end < s.len() {
            seq![strip_return(s.subrange(from, end), true)] + lines_from(s, end + 1)
        } else {
            seq![s.subrange(from, end)]
        }
    }
}

#[via_fn]
proof fn lines_from_decreases(s: Seq<char>, from: int) {
    if 0 <= from < s.len() {
        lemma_line_end_bounds(s, from);
    }
}

/// The lines of a text.
pub open spec fn split_lines(s: Seq<char>) -> Seq<Seq<char>> {
    lines_from(s, 0)
}

/// The lines joined into one text, a line feed between each two.
pub open spec fn join_lines(lines: Seq<Seq<char>>) -> Seq<char>
    decreases lines.len(),
{
    if lines.len() == 0 {
        Seq::empty()
    } else if lines.len() == 1 {
        lines[0]
    } else {
        join_lines(lines.drop_last()) + seq!['\n'] + lines.last()
    }
}

proof fn lemma_line_end_bounds(s: Seq<char>, from: int)
    requires
        0 <= from <= s.len(),
    ensures
        from <= line_end(s, from) <= s.len(),
        line_end(s, from) < s.len() ==> s[line_end(s, from)] == '\n',
        forall|k: int| from <= k < line_end(s, from) ==> s[k] != '\n',
    decreases s.len() - from,
{
    if from < s.len() && s[from] != '\n' {
        lemma_line_end_bounds(s, from + 1);
    }
}

/// The state in which row `y` begins when the rows above it are read from
/// the top: inside a block comment, if one is open at the end of the row
/// above.
pub open spec fn entry_state(rules: SyntaxView, text: Seq<Seq<char>>, y: int) -> LexState
    decreases y,
{
    if y <= 0 || y > text.len() {
        LexState::Code
    } else {
        exit_state(rules, text[y - 1], entry_state(rules, text, y - 1))
    }
}

/// The number of rows that a highlighting up to `until` goes over, in a
/// buffer of `rows` rows.
pub open spec fn highlight_limit(until: Option<usize>, rows: int) -> int {
    match until {
        Some(limit) => if limit < rows {
            limit as int
        } else {
            rows
        },
        None => rows,
    }
}

/// The search term that is highlighted: none is the same as an empty one.
pub open spec fn term_of(word: Option<Seq<char>>) -> Seq<char> {
    match word {
        Some(term) => term,
        None => Seq::empty(),
    }
}

/// The rows after the first `limit` of them have been highlighted by
/// `rules`, with the occurrences of `term` marked. The text stays, and so
/// do the spans of the rows from `limit` on.
pub open spec fn highlighted_rows(
    rules: SyntaxView,
    rows: Seq<RowView>,
    term: Seq<char>,
    limit: int,
) -> Seq<RowView> {
    Seq::new(
        rows.len(),
        |y: int|
            if y < limit {
                RowView {
                    text: rows[y].text,
                    spans: row_spans(rules, rows[y].text, term, entry_state(rules, text_of(rows), y)),
                }
            } else {
                rows[y]
            },
    )
}

proof fn lemma_entry_state_reads_above(
    rules: SyntaxView,
    a: Seq<Seq<char>>,
    b: Seq<Seq<char>>,
    y: int,
)
    requires
        a.len() == b.len(),
        forall|k: int| 0 <= k < y && k < a.len() ==> a[k] == b[k],
    ensures
        entry_state(rules, a, y) == entry_state(rules, b, y),
    decreases y,
{
    if 0 < y <= a.len() {
        lemma_entry_state_reads_above(rules, a, b, y - 1);
    }
}

/// Highlighting is idempotent: to highlight the same rows again, with the
/// same rules, search term and limit, changes no span.
pub proof fn lemma_highlight_is_idempotent(
    rules: SyntaxView,
    rows: Seq<RowView>,
    term: Seq<char>,
    limit: int,
)
    ensures
        highlighted_rows(rules, highlighted_rows(rules, rows, term, limit), term, limit)
            == highlighted_rows(rules, rows, term, limit),
{
    let once = highlighted_rows(rules, rows, term, limit);
    let twice = highlighted_rows(rules, once, term, limit);
    assert(text_of(once) =~= text_of(rows));
    assert(twice =~= once);
}

/// The text buffer of the editor.
pub struct Document {
    rows: Vec<Row>,
    filename: Option<String>,
    dirty: bool,
    file_type: FileType,
}

impl View for Document {
    type V = DocumentView;

    closed spec fn view(&self) -> DocumentView {
        DocumentView {
            rows: Seq::new(self.rows@.len(), |i: int| self.rows@[i]@),
            filename: text_view(self.filename),
            dirty: self.dirty,
        }
    }
}

impl Document {
    /// Every row is well formed, and the file type is that of the file
    /// name.
    pub closed spec fn wf(&self) -> bool {
        &&& forall|i: int| 0 <= i < self.rows@.len() ==> (#[trigger] self.rows@[i]).wf()
        &&& self.file_type.fits(self@.filename)
    }

    /// The text of a document can be held in memory.
    pub proof fn lemma_text_fits(&self)
        ensures
            text_fits(self@.text()),
    {
        assert(self.rows@.len() == self.rows.len());
        assert forall|y: int| 0 <= y < self@.text().len() implies (#[trigger] self@.text()[y]).len()
            <= usize::MAX by {
            self.rows@[y].lemma_length_fits();
        }
    }

    /// A new document: no row, no file name, nothing to save.
    pub fn new() -> (doc: Document)
        ensures
            doc.wf(),
            doc@ == (DocumentView { rows: Seq::empty(), filename: None, dirty: false }),
    {
        let doc = Document {
            rows: Vec::new(),
            filename: None,
            dirty: false,
            file_type: FileType::for_name(None),
        };
        assert(doc@.rows =~= Seq::empty());
        doc
    }

    /// The document for a file named `filename`, given what reading the
    /// file has brought: its contents, or nothing if it could not be read.
    pub fn open(filename: &str, contents: Option<&str>) -> (result: Result<Document, EditorError>)
        ensures
            contents is None ==> result is Err && result->Err_0 == EditorError::IoError,
            contents is Some ==> result is Ok && result->Ok_0.wf() && result->Ok_0@.text()
                == split_lines(contents->0@) && result->Ok_0@.filename == Some(filename@)
                && !result->Ok_0@.dirty,
    {
        match contents {
            Some(text) => Ok(Document::from_text(filename, text)),
            None => Err(EditorError::IoError),
        }
    }

    /// The document of a file named `filename` that holds `contents`: one
    /// row for each line, without the line's ending.
    pub fn from_text(filename: &str, contents: &str) -> (doc: Document)
        ensures
            doc.wf(),
            doc@.text() == split_lines(contents@),
            forall|i: int| 0 <= i < doc@.rows.len() ==> (#[trigger] doc@.rows[i]).spans.len() == 0,
            doc@.filename == Some(filename@),
            !doc@.dirty,
    {
        let chars = chars_of(contents);
        let mut rows: Vec<Row> = Vec::new();
        let mut start: usize = 0;
        while start < chars.len()
            invariant
                start <= chars.len(),
                chars@ == contents@,
                forall|i: int| 0 <= i < rows@.len() ==> (#[trigger] rows@[i]).wf(),
                forall|i: int| 0 <= i < rows@.len() ==> (#[trigger] rows@[i])@.spans.len() == 0,
                Seq::new(rows@.len(), |i: int| rows@[i]@.text) + lines_from(chars@, start as int)
                    == split_lines(chars@),
            decreases chars.len() - start,
        {
            let mut end: usize = start;
            while end < chars.len() && chars[end] != '\n'
                invariant
                    start <= end <= chars.len(),
                    line_end(chars@, end as int) == line_end(chars@, start as int),
                decreases chars.len() - end,
            {
                end += 1;
            }
            let ended = end < chars.len();
            let mut stop: usize = end;
            if ended && start < end && chars[end - 1] == '\r' {
                stop = end - 1;
            }
            let mut line: Vec<char> = Vec::new();
            let mut k: usize = start;
            while k < stop
                invariant
                    start <= k <= stop <= chars.len(),
                    line@ == chars@.subrange(start as int, k as int),
                decreases stop - k,
            {
                line.push(chars[k]);
                k += 1;
                assert(chars@.subrange(start as int, k as int) =~= chars@.subrange(
                    start as int,
                    k - 1,
                ).push(chars@[k - 1]));
            }
            let text = string_of(&line);
            let row = Row::new(text.as_str());
            proof {
                let whole = chars@.subrange(start as int, end as int);
                assert(line@ =~= strip_return(whole, ended));
                let before = Seq::new(rows@.len(), |i: int| rows@[i]@.text);
                let after = Seq::new(rows@.len() + 1, |i: int| rows@.push(row)[i]@.text);
                assert(after =~= before + seq![line@]);
                if ended {
                    assert(before + (seq![line@] + lines_from(chars@, end + 1)) =~= after
                        + lines_from(chars@, end + 1));
                } else {
                    assert(before + seq![line@] =~= after + lines_from(chars@, end as int));
                }
            }
            rows.push(row);
            start = if ended {
                end + 1
            } else {
                end
            };
        }
        let name = filename.to_owned();
        let file_type = FileType::for_name(Some(&name));
        let doc = Document { rows, filename: Some(name), dirty: false, file_type };
        assert(doc@.text() =~= Seq::new(rows@.len(), |i: int| rows@[i]@.text));
        assert(lines_from(chars@, start as int) =~= Seq::empty());
        doc
    }

    /// The number of rows.
    pub fn len(&self) -> (n: usize)
        ensures
            n == self@.rows.len(),
    {
        self.rows.len()
    }

    /// Whether the document has no row at all.
    pub fn is_empty(&self) -> (b: bool)
        ensures
            b == (self@.rows.len() == 0),
    {
        self.rows.len() == 0
    }

    /// Whether the document has changed since it was loaded or saved.
    pub fn is_changed(&self) -> (b: bool)
        ensures
            b == self@.dirty,
    {
        self.dirty
    }

    /// The name of the file behind the document, if it has one.
    pub fn filename(&self) -> (name: Option<&String>)
        ensures
            name is Some == self@.filename is Some,
            name is Some ==> name->0@ == self@.filename->0,
    {
        self.filename.as_ref()
    }

    /// The row at `index`, if there is one.
    pub fn row(&self, index: usize) -> (row: Option<&Row>)
        requires
            self.wf(),
        ensures
            row is Some == (index < self@.rows.len()),
            row is Some ==> row->0@ == self@.rows[index as int] && row->0.wf(),
    {
        if index < self.rows.len() {
            Some(&self.rows[index])
        } else {
            None
        }
    }

    /// Inserts `c` at `at`. A row beyond the end sentinel is refused, and
    /// nothing changes; anywhere else the insertion is done and the
    /// document counts as changed.
    pub fn insert(&mut self, at: &Position, c: char) -> (result: Result<(), EditorError>)
        requires
            old(self).wf(),
        ensures
            final(self).wf(),
            at.y > old(self)@.rows.len() ==> result == Err::<(), EditorError>(
                EditorError::OutOfBounds,
            ) && final(self)@ == old(self)@,
            at.y <= old(self)@.rows.len() ==> result is Ok && final(self)@ == (DocumentView {
                rows: insert_rows(old(self)@.rows, *at, c),
                dirty: true,
                ..old(self)@
            }),
            at.y == old(self)@.rows.len() && c != '\n' ==> result is Ok && final(self)@.rows
                == old(self)@.rows.push(plain(seq![c])),
    {
        let len = self.rows.len();
        if at.y > len {
            return Err(EditorError::OutOfBounds);
        }
        if at.y == len {
            let mut row = Row::empty();
            if c != '\n' {
                row.insert_char(0, c);
                assert(row@.text =~= seq![c]);
            }
            self.rows.push(row);
        } else if c == '\n' {
            let tail = self.rows[at.y].split(at.x);
            self.rows.insert(at.y + 1, tail);
        } else {
            self.rows[at.y].insert_char(at.x, c);
        }
        self.dirty = true;
        assert(final(self)@.rows =~= insert_rows(old(self)@.rows, *at, c));
        Ok(())
    }

    /// Deletes at `at`: the character under it, or, at the end of a row
    /// that has a successor, the boundary between the two rows. Where
    /// there is neither, nothing changes. The document counts as changed
    /// when something was taken out.
    pub fn delete(&mut self, at: &Position)
        requires
            old(self).wf(),
        ensures
            final(self).wf(),
            final(self)@ == (DocumentView {
                rows: delete_rows(old(self)@.rows, *at),
                dirty: old(self)@.dirty || delete_removes(old(self)@.rows, *at),
                ..old(self)@
            }),
    {
        let len = self.rows.len();
        if at.y >= len {
            return ;
        }
        let row_len = self.rows[at.y].length();
        if at.x == row_len && at.y + 1 < len {
            let next = self.rows.remove(at.y + 1);
            self.rows[at.y].merge(&next);
            self.dirty = true;
            assert(final(self)@.rows =~= delete_rows(old(self)@.rows, *at));
        } else if at.x < row_len {
            self.rows[at.y].delete_char(at.x);
            self.dirty = true;
            assert(final(self)@.rows =~= delete_rows(old(self)@.rows, *at));
        } else {
            assert(final(self)@.rows =~= delete_rows(old(self)@.rows, *at));
        }
    }

    /// The text of the document as it is written to a file: the rows with
    /// a line feed between each two.
    pub fn to_text(&self) -> (contents: String)
        ensures
            contents@ == join_lines(self@.text()),
    {
        let mut out: Vec<char> = Vec::new();
        let mut i: usize = 0;
        while i < self.rows.len()
            invariant
                i <= self.rows.len(),
                out@ == join_lines(self@.text().take(i as int)),
            decreases self.rows.len() - i,
        {
            if i > 0 {
                out.push('\n');
            }
            append_chars(&mut out, self.rows[i].chars());
            proof {
                let lines = self@.text().take(i + 1);
                assert(lines.drop_last() =~= self@.text().take(i as int));
                assert(lines.last() == self.rows@[i as int]@.text);
                if i == 0 {
                    assert(join_lines(self@.text().take(0)) =~= Seq::<char>::empty());
                    assert(out@ =~= lines[0]);
                }
            }
            i += 1;
        }
        assert(self@.text().take(self.rows.len() as int) =~= self@.text());
        string_of(&out)
    }

    /// Records how writing the document to its file has ended. After a
    /// write that succeeded the document counts as unchanged. After one
    /// that failed nothing changes, and the failure is reported.
    pub fn saved(&mut self, written: bool) -> (result: Result<(), EditorError>)
        requires
            old(self).wf(),
        ensures
            final(self).wf(),
            written ==> result is Ok && final(self)@ == (DocumentView { dirty: false, ..old(self)@ }),
            !written ==> result == Err::<(), EditorError>(EditorError::IoError) && final(self)@
                == old(self)@,
    {
        if written {
            self.dirty = false;
            Ok(())
        } else {
            Err(EditorError::IoError)
        }
    }

    /// Gives the document a file name, or takes it away; the file type
    /// follows the name.
    pub fn set_filename(&mut self, filename: Option<String>)
        requires
            old(self).wf(),
        ensures
            final(self).wf(),
            final(self)@ == (DocumentView { filename: text_view(filename), ..old(self)@ }),
    {
        self.file_type = FileType::for_name(filename.as_ref());
        self.filename = filename;
    }

    /// The label of the type of the file, told from the end of its name.
    pub fn file_type(&self) -> (label: String)
        requires
            self.wf(),
        ensures
            label@ == label_for(self@.filename),
    {
        proof {
            self.file_type.lemma_fits(self@.filename);
        }
        self.file_type.name()
    }

    /// Computes the highlight spans of the rows before `until`, or of all
    /// rows where no limit is given, by the rules of the file type and
    /// with every occurrence of `word` marked. This never fails.
    pub fn highlight(&mut self, word: &Option<String>, until: Option<usize>) -> (result: Result<
        (),
        EditorError,
    >)
        requires
            old(self).wf(),
        ensures
            final(self).wf(),
            result is Ok,
            final(self)@ == (DocumentView {
                rows: highlighted_rows(
                    syntax_for(old(self)@.filename),
                    old(self)@.rows,
                    term_of(text_view(*word)),
                    highlight_limit(until, old(self)@.rows.len() as int),
                ),
                ..old(self)@
            }),
    {
        let term: Vec<char> = match word {
            Some(text) => chars_of(text.as_str()),
            None => Vec::new(),
        };
        let rows = self.rows.len();
        let limit: usize = match until {
            Some(k) => if k < rows {
                k
            } else {
                rows
            },
            None => rows,
        };
        let ghost rules = syntax_for(self@.filename);
        let ghost before = self@.rows;
        proof {
            self.file_type.lemma_fits(self@.filename);
        }
        let mut state = LexState::Code;
        let mut y: usize = 0;
        while y < limit
            invariant
                y <= limit <= rows,
                rows == before.len(),
                self.wf(),
                self.file_type == old(self).file_type,
                self@.filename == old(self)@.filename,
                self@.dirty == old(self)@.dirty,
                self.file_type.syntax() == rules,
                term@ == term_of(text_view(*word)),
                self@.rows.len() == rows,
                state == entry_state(rules, text_of(before), y as int),
                forall|k: int|
                    0 <= k < y ==> #[trigger] self@.rows[k] == highlighted_rows(
                        rules,
                        before,
                        term@,
                        limit as int,
                    )[k],
                forall|k: int| y <= k < rows ==> #[trigger] self@.rows[k] == before[k],
            decreases limit - y,
        {
            let ghost now = self@.rows;
            let ghost held = self.rows@;
            state = self.rows[y].highlight(self.file_type.rules(), &term, state);
            assert(held[y as int]@ == now[y as int]);
            assert(text_of(before)[y as int] == before[y as int].text);
            assert forall|k: int| 0 <= k < rows implies #[trigger] self@.rows[k] == if k == y {
                highlighted_rows(rules, before, term@, limit as int)[k]
            } else {
                now[k]
            } by {}
            y += 1;
        }
        assert(self@.rows =~= highlighted_rows(rules, before, term@, limit as int));
        Ok(())
    }
}

/// Deleting at the place of an insertion undoes it: after a character
/// other than a newline is inserted at a valid position inside the buffer,
/// a deletion at that position gives every row its former text back.
pub proof fn lemma_insert_then_delete(rows: Seq<RowView>, at: Position, c: char)
    requires
        at.y < rows.len(),
        at.x <= rows[at.y as int].text.len(),
        c != '\n',
    ensures
        text_of(delete_rows(insert_rows(rows, at, c), at)) == text_of(rows),
{
    let row = rows[at.y as int].text;
    let grown = insert_rows(rows, at, c);
    assert(grown[at.y as int].text == row.insert(at.x as int, c));
    assert(row.insert(at.x as int, c).remove(at.x as int) =~= row);
    assert(text_of(delete_rows(grown, at)) =~= text_of(rows));
}

} // verus!
