//! One line of text with its render cache and highlight spans.

use vstd::prelude::*;
use crate::highlight::{
    Category, LexState, Span, SyntaxRules, category_at, exit_state, highlight_line, row_spans,
    spans_fit,
};
use crate::text::{append_chars, char_is_control, chars_of, is_control, string_of, string_of_range};

verus! {

/// Tab stops stand at every multiple of this many columns.
pub const TAB_STOP: usize = 8;

/// The number of screen columns that `c` takes when it starts at column
/// `col`: a tab reaches to the next tab stop, any other character takes one.
pub open spec fn cell_width(c: char, col: int) -> int {
    if c == '\t' {
        TAB_STOP - col % (TAB_STOP as int)
    } else {
        1
    }
}

/// What is drawn in the columns of `c`: blanks for a tab, a question mark
/// for any other control character, and the character itself otherwise.
pub open spec fn cell_char(c: char) -> char {
    if c == '\t' {
        ' '
    } else if is_control(c) {
        '?'
    } else {
        c
    }
}

/// The text as it is drawn: every character replaced by its cells.
pub open spec fn expand_tabs(s: Seq<char>) -> Seq<char>
    decreases s.len(),
{
    if s.len() == 0 {
        Seq::empty()
    } else {
        let head = expand_tabs(s.drop_last());
        head + Seq::new(cell_width(s.last(), head.len() as int) as nat, |i: int| cell_char(s.last()))
    }
}

/// `bound` clamped to a text of `len` columns.
pub open spec fn clamp(bound: int, len: int) -> int {
    if bound < len {
        bound
    } else {
        len
    }
}

/// The columns `start..end` of `cells`, both bounds clamped to its length;
/// empty where `end` does not lie beyond `start`.
pub open spec fn visible_slice<A>(cells: Seq<A>, start: int, end: int) -> Seq<A> {
    let hi = clamp(end, cells.len() as int);
    let lo = clamp(start, hi);
    cells.subrange(lo, hi)
}

/// The category of each cell of the drawn text: that which the spans give
/// to the character that the cell belongs to.
pub open spec fn cell_categories(text: Seq<char>, spans: Seq<Span>) -> Seq<Category>
    decreases text.len(),
{
    if text.len() == 0 {
        Seq::empty()
    } else {
        let head = cell_categories(text.drop_last(), spans);
        head + Seq::new(
            cell_width(text.last(), head.len() as int) as nat,
            |i: int| category_at(spans, text.len() - 1),
        )
    }
}

/// The drawn text has one category for each of its cells.
pub proof fn lemma_cells_align(text: Seq<char>, spans: Seq<Span>)
    ensures
        cell_categories(text, spans).len() == expand_tabs(text).len(),
    decreases text.len(),
{
    if text.len() > 0 {
        lemma_cells_align(text.drop_last(), spans);
    }
}

/// Among spans that lie in order, the span that holds the character at
/// `i` is the first one that ends behind `i`, if that one begins at or
/// before `i`; otherwise no span holds it.
proof fn lemma_category_lookup(spans: Seq<Span>, len: int, i: int, k: int)
    requires
        spans_fit(spans, len),
        0 <= k <= spans.len(),
        forall|j: int| 0 <= j < k ==> (#[trigger] spans[j]).end <= i,
        k < spans.len() ==> spans[k].end > i,
    ensures
        category_at(spans, i) == if k < spans.len() && spans[k].start <= i {
            spans[k].category
        } else {
            Category::Normal
        },
    decreases spans.len(),
{
    if spans.len() > 0 {
        let last = spans.len() - 1;
        let shorter = spans.drop_last();
        if spans[last].start <= i < spans[last].end {
            if k < last {
                assert(spans[k].end <= spans[last].start);
            }
        } else {
            let below = if k < last {
                k
            } else {
                last
            };
            assert forall|a: int, b: int| 0 <= a < b < shorter.len() implies (
            #[trigger] shorter[a]).end <= (#[trigger] shorter[b]).start by {
                assert(spans[a].end <= spans[b].start);
            }
            assert forall|a: int| 0 <= a < shorter.len() implies (#[trigger] shorter[a]).start
                < shorter[a].end <= len by {
                assert(spans[a].start < spans[a].end);
            }
            assert forall|j: int| 0 <= j < below implies (#[trigger] shorter[j]).end <= i by {
                assert(spans[j].end <= i);
            }
            lemma_category_lookup(shorter, len, i, below);
        }
    }
}

/// What a row holds, as mathematics: its raw text and its highlight spans.
pub struct RowView {
    pub text: Seq<char>,
    pub spans: Seq<Span>,
}

/// A row of the given text that carries no highlight span.
pub open spec fn plain(text: Seq<char>) -> RowView {
    RowView { text, spans: Seq::empty() }
}

/// A line of the buffer: its characters, the drawn form of them, and the
/// highlight spans that the last highlighting gave it.
pub struct Row {
    content: Vec<char>,
    render_cache: Vec<char>,
    spans: Vec<Span>,
}

impl View for Row {
    type V = RowView;

    closed spec fn view(&self) -> RowView {
        RowView { text: self.content@, spans: self.spans@ }
    }
}

fn render_cells(content: &Vec<char>) -> (cells: Vec<char>)
    ensures
        cells@ == expand_tabs(content@),
{
    let mut cells: Vec<char> = Vec::new();
    let mut i: usize = 0;
    while i < content.len()
        invariant
            i <= content.len(),
            cells@ == expand_tabs(content@.take(i as int)),
        decreases content.len() - i,
    {
        let c = content[i];
        let ghost head = cells@;
        assert(content@.take(i + 1).drop_last() =~= content@.take(i as int));
        if c == '\t' {
            let width: usize = TAB_STOP - cells.len() % TAB_STOP;
            let mut k: usize = 0;
            while k < width
                invariant
                    k <= width,
                    cells@ == head + Seq::new(k as nat, |j: int| ' '),
                decreases width - k,
            {
                cells.push(' ');
                k += 1;
                assert(head + Seq::new(k as nat, |j: int| ' ') =~= (head + Seq::new(
                    (k - 1) as nat,
                    |j: int| ' ',
                )).push(' '));
            }
            assert(Seq::new(width as nat, |j: int| ' ') =~= Seq::new(
                cell_width(c, head.len() as int) as nat,
                |j: int| cell_char(c),
            ));
        } else {
            let shown = if char_is_control(c) {
                '?'
            } else {
                c
            };
            cells.push(shown);
            assert(head.push(shown) =~= head + Seq::new(
                cell_width(c, head.len() as int) as nat,
                |j: int| cell_char(c),
            ));
        }
        i += 1;
    }
    assert(content@.take(content.len() as int) =~= content@);
    cells
}

fn categories_of_cells(content: &Vec<char>, spans: &Vec<Span>) -> (cells: Vec<Category>)
    requires
        spans_fit(spans@, content@.len() as int),
    ensures
        cells@ == cell_categories(content@, spans@),
{
    let mut cells: Vec<Category> = Vec::new();
    let mut i: usize = 0;
    let mut k: usize = 0;
    while i < content.len()
        invariant
            i <= content.len(),
            k <= spans.len(),
            spans_fit(spans@, content@.len() as int),
            forall|j: int| 0 <= j < k ==> (#[trigger] spans@[j]).end <= i,
            cells@ == cell_categories(content@.take(i as int), spans@),
        decreases content.len() - i,
    {
        while k < spans.len() && spans[k].end <= i
            invariant
                k <= spans.len(),
                forall|j: int| 0 <= j < k ==> (#[trigger] spans@[j]).end <= i,
            decreases spans.len() - k,
        {
            k += 1;
        }
        let category = if k < spans.len() && spans[k].start <= i {
            spans[k].category
        } else {
            Category::Normal
        };
        proof {
            lemma_category_lookup(spans@, content@.len() as int, i as int, k as int);
        }
        let width: usize = if content[i] == '\t' {
            TAB_STOP - cells.len() % TAB_STOP
        } else {
            1
        };
        let ghost head = cells@;
        assert(content@.take(i + 1).drop_last() =~= content@.take(i as int));
        let mut n: usize = 0;
        while n < width
            invariant
                n <= width,
                cells@ == head + Seq::new(n as nat, |j: int| category),
            decreases width - n,
        {
            cells.push(category);
            n += 1;
            assert(head + Seq::new(n as nat, |j: int| category) =~= (head + Seq::new(
                (n - 1) as nat,
                |j: int| category,
            )).push(category));
        }
        assert(Seq::new(width as nat, |j: int| category) =~= Seq::new(
            cell_width(content@[i as int], head.len() as int) as nat,
            |j: int| category_at(spans@, i as int),
        ));
        i += 1;
    }
    assert(content@.take(content.len() as int) =~= content@);
    cells
}

impl Row {
    /// The render cache holds the drawn form of the text, and the highlight
    /// spans lie inside the text.
    pub closed spec fn wf(&self) -> bool {
        &&& self.render_cache@ == expand_tabs(self.content@)
        &&& spans_fit(self.spans@, self.content@.len() as int)
    }

    /// In a well-formed row the spans lie inside the text.
    pub proof fn lemma_spans_fit(&self)
        requires
            self.wf(),
        ensures
            spans_fit(self@.spans, self@.text.len() as int),
    {
    }

    /// The text of a row can be held in memory.
    pub proof fn lemma_length_fits(&self)
        ensures
            self@.text.len() <= usize::MAX,
    {
        assert(self.content@.len() == self.content.len());
    }

    fn from_chars(content: Vec<char>) -> (row: Row)
        ensures
            row.wf(),
            row@ == plain(content@),
    {
        let render_cache = render_cells(&content);
        Row { content, render_cache, spans: Vec::new() }
    }

    /// A row without characters.
    pub fn empty() -> (row: Row)
        ensures
            row.wf(),
            row@ == plain(Seq::empty()),
    {
        Row::from_chars(Vec::new())
    }

    /// A row holding the characters of `text`, not yet highlighted.
    pub fn new(text: &str) -> (row: Row)
        ensures
            row.wf(),
            row@ == plain(text@),
    {
        Row::from_chars(chars_of(text))
    }

    /// The number of characters in the row.
    pub fn length(&self) -> (n: usize)
        ensures
            n == self@.text.len(),
    {
        self.content.len()
    }

    /// Whether the row holds no character.
    pub fn is_empty(&self) -> (b: bool)
        ensures
            b == (self@.text.len() == 0),
    {
        self.content.len() == 0
    }

    /// The characters of the row.
    pub fn chars(&self) -> (content: &Vec<char>)
        ensures
            content@ == self@.text,
    {
        &self.content
    }

    /// The highlight spans of the row, from left to right.
    pub fn highlight_spans(&self) -> (spans: &Vec<Span>)
        ensures
            spans@ == self@.spans,
    {
        &self.spans
    }

    /// The raw text of the row.
    pub fn as_text(&self) -> (text: String)
        ensures
            text@ == self@.text,
    {
        string_of(&self.content)
    }

    /// The drawn form of the row between the screen columns `start` and
    /// `end`, tabs expanded; bounds beyond the drawn text are clamped.
    pub fn render(&self, start: usize, end: usize) -> (cells: String)
        requires
            self.wf(),
        ensures
            cells@ == visible_slice(expand_tabs(self@.text), start as int, end as int),
    {
        let len = self.render_cache.len();
        let hi: usize = if end < len {
            end
        } else {
            len
        };
        let lo: usize = if start < hi {
            start
        } else {
            hi
        };
        string_of_range(&self.render_cache, lo, hi)
    }

    /// The categories of the cells that `render` returns for the same
    /// bounds, cell by cell.
    pub fn render_categories(&self, start: usize, end: usize) -> (cells: Vec<Category>)
        requires
            self.wf(),
        ensures
            cells@ == visible_slice(
                cell_categories(self@.text, self@.spans),
                start as int,
                end as int,
            ),
            cells@.len() == visible_slice(expand_tabs(self@.text), start as int, end as int).len(),
    {
        let all = categories_of_cells(&self.content, &self.spans);
        proof {
            lemma_cells_align(self@.text, self@.spans);
        }
        let len = all.len();
        let hi: usize = if end < len {
            end
        } else {
            len
        };
        let lo: usize = if start < hi {
            start
        } else {
            hi
        };
        let mut cells: Vec<Category> = Vec::new();
        let mut j: usize = lo;
        while j < hi
            invariant
                lo <= j <= hi <= all.len(),
                cells@ == all@.subrange(lo as int, j as int),
            decreases hi - j,
        {
            cells.push(all[j]);
            j += 1;
            assert(all@.subrange(lo as int, j as int) =~= all@.subrange(lo as int, j - 1).push(
                all@[j - 1],
            ));
        }
        cells
    }

    /// Puts `ch` before the character at `col`, or at the end of the row
    /// where `col` lies beyond it. The highlight spans are dropped.
    pub fn insert_char(&mut self, col: usize, ch: char)
        requires
            old(self).wf(),
        ensures
            final(self).wf(),
            final(self)@ == plain(
                old(self)@.text.insert(clamp(col as int, old(self)@.text.len() as int), ch),
            ),
    {
        let at: usize = if col < self.content.len() {
            col
        } else {
            self.content.len()
        };
        self.content.insert(at, ch);
        self.render_cache = render_cells(&self.content);
        self.spans = Vec::new();
    }

    /// Takes out the character at `col`, and drops the highlight spans.
    /// Where `col` is not inside the row, nothing changes.
    pub fn delete_char(&mut self, col: usize)
        requires
            old(self).wf(),
        ensures
            final(self).wf(),
            col < old(self)@.text.len() ==> final(self)@ == plain(old(self)@.text.remove(col as int)),
            col >= old(self)@.text.len() ==> *final(self) == *old(self),
    {
        if col < self.content.len() {
            self.content.remove(col);
            self.render_cache = render_cells(&self.content);
            self.spans = Vec::new();
        }
    }

    /// Cuts the row at `col`: the row keeps the characters before `col` and
    /// the characters from `col` on are returned as a new row. Where `col`
    /// lies beyond the row, the new row is empty.
    pub fn split(&mut self, col: usize) -> (tail: Row)
        requires
            old(self).wf(),
        ensures
            final(self).wf(),
            tail.wf(),
            final(self)@ == plain(
                old(self)@.text.take(clamp(col as int, old(self)@.text.len() as int)),
            ),
            tail@ == plain(old(self)@.text.skip(clamp(col as int, old(self)@.text.len() as int))),
    {
        let at: usize = if col < self.content.len() {
            col
        } else {
            self.content.len()
        };
        let rest = self.content.split_off(at);
        self.render_cache = render_cells(&self.content);
        self.spans = Vec::new();
        Row::from_chars(rest)
    }

    /// Appends the text of `other`, and drops the highlight spans.
    pub fn merge(&mut self, other: &Row)
        requires
            old(self).wf(),
        ensures
            final(self).wf(),
            final(self)@ == plain(old(self)@.text + other@.text),
    {
        append_chars(&mut self.content, &other.content);
        self.render_cache = render_cells(&self.content);
        self.spans = Vec::new();
    }

    /// Gives the row its highlight spans: the tokens of its text by
    /// `rules`, for a row that begins in `state`, with the occurrences of
    /// `term` laid over them. Returns the state in which the row ends.
    pub fn highlight(&mut self, rules: &SyntaxRules, term: &Vec<char>, state: LexState) -> (exit:
        LexState)
        requires
            old(self).wf(),
        ensures
            final(self).wf(),
            final(self)@ == (RowView {
                text: old(self)@.text,
                spans: row_spans(rules@, old(self)@.text, term@, state),
            }),
            exit == exit_state(rules@, old(self)@.text, state),
    {
        let (spans, exit) = highlight_line(rules, &self.content, term, state);
        self.spans = spans;
        exit
    }
}

} // verus!
