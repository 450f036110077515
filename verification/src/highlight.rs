//! Token classification of a row and its encoding as highlight spans.

use vstd::prelude::*;
use crate::search::{occurs, occurs_at};

verus! {

/// What a character of a row is part of, for colouring.
#[derive(Clone, Copy, PartialEq, Eq, Structural, Debug)]
pub enum Category {
    Normal,
    Number,
    StringLiteral,
    Comment,
    Keyword,
    SearchMatch,
}

/// The characters `start..end` of a row, all of one category.
#[derive(Clone, Copy, PartialEq, Eq, Structural, Debug)]
pub struct Span {
    pub start: usize,
    pub end: usize,
    pub category: Category,
}

/// The spans lie inside a row of `len` characters, none is empty, and they
/// follow one another from left to right without overlap.
pub open spec fn spans_fit(spans: Seq<Span>, len: int) -> bool {
    &&& forall|k: int| 0 <= k < spans.len() ==> (#[trigger] spans[k]).start < spans[k].end <= len
    &&& forall|j: int, k: int|
        0 <= j < k < spans.len() ==> (#[trigger] spans[j]).end <= (#[trigger] spans[k]).start
}

/// The category that `spans` give to the character at `i`: that of the span
/// holding `i`, and `Normal` where no span does.
pub open spec fn category_at(spans: Seq<Span>, i: int) -> Category
    decreases spans.len(),
{
    if spans.len() == 0 {
        Category::Normal
    } else if spans.last().start <= i < spans.last().end {
        spans.last().category
    } else {
        category_at(spans.drop_last(), i)
    }
}

/// What a row hands on to the row below it: whether its end lies inside a
/// block comment.
#[derive(Clone, Copy, PartialEq, Eq, Structural, Debug)]
pub enum LexState {
    Code,
    BlockComment,
}

/// The rule set by which rows are classified.
pub struct SyntaxRules {
    /// Words that begin with a digit are numbers.
    pub numbers: bool,
    /// Text between double quotes is a string literal.
    pub strings: bool,
    /// Two slashes begin a comment that runs to the end of the row.
    pub line_comments: bool,
    /// A slash and a star begin a comment that runs to the next star and
    /// slash, over as many rows as it takes.
    pub block_comments: bool,
    /// The words that are keywords.
    pub keywords: Vec<Vec<char>>,
}

/// A rule set as mathematics.
pub struct SyntaxView {
    pub numbers: bool,
    pub strings: bool,
    pub line_comments: bool,
    pub block_comments: bool,
    pub keywords: Seq<Seq<char>>,
}

impl View for SyntaxRules {
    type V = SyntaxView;

    open spec fn view(&self) -> SyntaxView {
        SyntaxView {
            numbers: self.numbers,
            strings: self.strings,
            line_comments: self.line_comments,
            block_comments: self.block_comments,
            keywords: Seq::new(self.keywords@.len(), |k: int| self.keywords@[k]@),
        }
    }
}

/// An ASCII digit.
pub open spec fn is_digit(c: char) -> bool {
    '0' <= c <= '9'
}

/// A character of a word: an ASCII letter, an ASCII digit or an underscore.
pub open spec fn is_word_char(c: char) -> bool {
    is_digit(c) || 'a' <= c <= 'z' || 'A' <= c <= 'Z' || c == '_'
}

/// The characters `a` and `b` stand at `i` and directly behind it.
pub open spec fn starts_pair(s: Seq<char>, i: int, a: char, b: char) -> bool {
    0 <= i && i + 1 < s.len() && s[i] == a && s[i + 1] == b
}

/// The end of the word that holds the character at `i`: the index of the
/// first character at or behind `i` that is not a word character.
pub open spec fn word_end(s: Seq<char>, i: int) -> int
    decreases s.len() - i,
{
    if 0 <= i < s.len() && is_word_char(s[i]) {
        word_end(s, i + 1)
    } else {
        i
    }
}

/// The end of a string literal whose inside begins at `i`: the index
/// behind the first double quote at or behind `i` that no backslash
/// stands before, or the end of the row where the literal is not closed.
pub open spec fn string_end(s: Seq<char>, i: int) -> int
    decreases s.len() - i,
{
    if i < 0 || i >= s.len() {
        s.len() as int
    } else if s[i] == '"' {
        i + 1
    } else if s[i] == '\\' {
        if i + 1 >= s.len() {
            s.len() as int
        } else {
            string_end(s, i + 2)
        }
    } else {
        string_end(s, i + 1)
    }
}

/// The index of the first star and slash at or behind `i`, or the length
/// of the row if there is none.
pub open spec fn comment_close(s: Seq<char>, i: int) -> int
    decreases s.len() - i,
{
    if i < 0 || i >= s.len() {
        s.len() as int
    } else if starts_pair(s, i, '*', '/') {
        i
    } else {
        comment_close(s, i + 1)
    }
}

/// The category of a word: a number if it begins with a digit and the
/// rules know numbers, a keyword if the rules list it.
pub open spec fn word_category(rules: SyntaxView, word: Seq<char>) -> Category {
    if word.len() > 0 && is_digit(word[0]) {
        if rules.numbers {
            Category::Number
        } else {
            Category::Normal
        }
    } else if rules.keywords.contains(word) {
        Category::Keyword
    } else {
        Category::Normal
    }
}

/// A block comment whose inside begins at `i`: where it ends, and the
/// state behind it.
pub open spec fn comment_token(s: Seq<char>, i: int) -> (int, Category, LexState) {
    let close = comment_close(s, i);
    if close < s.len() {
        (close + 2, Category::Comment, LexState::Code)
    } else {
        (s.len() as int, Category::Comment, LexState::BlockComment)
    }
}

/// The token that begins at `i`, for `i` inside the row: the index at
/// which it ends, its category, and the state behind it.
pub open spec fn token_at(rules: SyntaxView, s: Seq<char>, i: int, state: LexState) -> (
    int,
    Category,
    LexState,
) {
    match state {
        LexState::BlockComment => comment_token(s, i),
        LexState::Code => if rules.block_comments && starts_pair(s, i, '/', '*') {
            comment_token(s, i + 2)
        } else if rules.line_comments && starts_pair(s, i, '/', '/') {
            (s.len() as int, Category::Comment, LexState::Code)
        } else if rules.strings && s[i] == '"' {
            (string_end(s, i + 1), Category::StringLiteral, LexState::Code)
        } else if is_word_char(s[i]) {
            (word_end(s, i), word_category(rules, s.subrange(i, word_end(s, i))), LexState::Code)
        } else {
            (i + 1, Category::Normal, LexState::Code)
        },
    }
}

/// The categories of the characters of `s` from `i` on, when the row is
/// in `state` at `i`, and the state at the end of the row.
pub open spec fn lex_from(rules: SyntaxView, s: Seq<char>, i: int, state: LexState) -> (
    Seq<Category>,
    LexState,
)
    decreases s.len() - i,
    via lex_from_decreases
{
    if i < 0 || i >= s.len() {
        (Seq::empty(), state)
    } else {
        let (end, category, next) = token_at(rules, s, i, state);
        let rest = lex_from(rules, s, end, next);
        (Seq::new((end - i) as nat, |k: int| category) + rest.0, rest.1)
    }
}

#[via_fn]
proof fn lex_from_decreases(rules: SyntaxView, s: Seq<char>, i: int, state: LexState) {
    if 0 <= i < s.len() {
        lemma_token_bounds(rules, s, i, state);
    }
}

proof fn lemma_word_end_bounds(s: Seq<char>, i: int)
    requires
        0 <= i <= s.len(),
    ensures
        i <= word_end(s, i) <= s.len(),
    decreases s.len() - i,
{
    if i < s.len() && is_word_char(s[i]) {
        lemma_word_end_bounds(s, i + 1);
    }
}

proof fn lemma_string_end_bounds(s: Seq<char>, i: int)
    requires
        0 <= i <= s.len(),
    ensures
        i <= string_end(s, i) <= s.len(),
        i < s.len() ==> i < string_end(s, i),
    decreases s.len() - i,
{
    if i < s.len() && s[i] != '"' {
        if s[i] == '\\' {
            if i + 1 < s.len() {
                lemma_string_end_bounds(s, i + 2);
            }
        } else {
            lemma_string_end_bounds(s, i + 1);
        }
    }
}

proof fn lemma_comment_close_bounds(s: Seq<char>, i: int)
    requires
        0 <= i <= s.len(),
    ensures
        i <= comment_close(s, i) <= s.len(),
        comment_close(s, i) < s.len() ==> comment_close(s, i) + 2 <= s.len(),
    decreases s.len() - i,
{
    if i < s.len() && !starts_pair(s, i, '*', '/') {
        lemma_comment_close_bounds(s, i + 1);
    }
}

/// A token is not empty and ends inside the row.
pub proof fn lemma_token_bounds(rules: SyntaxView, s: Seq<char>, i: int, state: LexState)
    requires
        0 <= i < s.len(),
    ensures
        i < token_at(rules, s, i, state).0 <= s.len(),
{
    lemma_comment_close_bounds(s, i);
    if i + 2 <= s.len() {
        lemma_comment_close_bounds(s, i + 2);
    }
    lemma_string_end_bounds(s, i + 1);
    lemma_word_end_bounds(s, i);
    if is_word_char(s[i]) {
        lemma_word_end_bounds(s, i + 1);
    }
}

/// The character at `i` lies inside an occurrence of the search term.
pub open spec fn in_match(s: Seq<char>, term: Seq<char>, i: int) -> bool {
    term.len() > 0 && exists|x: int| i - term.len() < x <= i && #[trigger] occurs_at(s, term, x)
}

/// The categories with every occurrence of the search term laid over
/// them.
pub open spec fn overlay(categories: Seq<Category>, s: Seq<char>, term: Seq<char>) -> Seq<
    Category,
> {
    Seq::new(
        categories.len(),
        |i: int|
            if in_match(s, term, i) {
                Category::SearchMatch
            } else {
                categories[i]
            },
    )
}

/// The spans that say what `categories` says, character by character: one
/// span for each longest run of one category other than `Normal`.
pub open spec fn spans_of(categories: Seq<Category>) -> Seq<Span>
    decreases categories.len(),
{
    if categories.len() == 0 {
        Seq::empty()
    } else {
        let before = spans_of(categories.drop_last());
        let i = categories.len() - 1;
        let c = categories.last();
        if c == Category::Normal {
            before
        } else if before.len() > 0 && before.last().end == i && before.last().category == c {
            before.drop_last().push(
                Span { start: before.last().start, end: (i + 1) as usize, category: c },
            )
        } else {
            before.push(Span { start: i as usize, end: (i + 1) as usize, category: c })
        }
    }
}

/// The highlight spans of a row: its tokens, the occurrences of the
/// search term laid over them, as spans.
pub open spec fn row_spans(rules: SyntaxView, s: Seq<char>, term: Seq<char>, state: LexState) -> Seq<
    Span,
> {
    spans_of(overlay(lex_from(rules, s, 0, state).0, s, term))
}

/// The state in which a row that began in `state` ends.
pub open spec fn exit_state(rules: SyntaxView, s: Seq<char>, state: LexState) -> LexState {
    lex_from(rules, s, 0, state).1
}

/// No two spans that touch are of one category.
pub open spec fn spans_are_longest(spans: Seq<Span>) -> bool {
    forall|j: int, k: int|
        0 <= j && k == j + 1 && k < spans.len() ==> !((#[trigger] spans[j]).end == (
        #[trigger] spans[k]).start && spans[j].category == spans[k].category)
}

/// `spans` say what `categories` says: they lie inside the row in order,
/// none is of category `Normal`, touching spans differ in category, and
/// the category that they give to each character is the one in the
/// sequence.
pub open spec fn describes(spans: Seq<Span>, categories: Seq<Category>) -> bool {
    &&& spans_fit(spans, categories.len() as int)
    &&& spans_are_longest(spans)
    &&& forall|k: int| 0 <= k < spans.len() ==> (#[trigger] spans[k]).category != Category::Normal
    &&& forall|i: int|
        0 <= i < categories.len() ==> #[trigger] category_at(spans, i) == categories[i]
    &&& forall|i: int| categories.len() <= i ==> #[trigger] category_at(spans, i) == Category::Normal
}

proof fn lemma_describes_grown(before: Seq<Span>, categories: Seq<Category>)
    requires
        0 < categories.len() <= usize::MAX,
        describes(before, categories.drop_last()),
        before.len() > 0,
        before.last().end == categories.len() - 1,
        before.last().category == categories.last(),
    ensures
        describes(
            before.drop_last().push(
                Span {
                    start: before.last().start,
                    end: categories.len() as usize,
                    category: categories.last(),
                },
            ),
            categories,
        ),
{
    let n = categories.len() as int;
    let c = categories.last();
    let shorter = categories.drop_last();
    let grown = Span { start: before.last().start, end: n as usize, category: c };
    let now = before.drop_last().push(grown);
    assert(now.drop_last() =~= before.drop_last());
    assert(now.last() == grown);
    assert forall|k: int| 0 <= k < now.len() implies (#[trigger] now[k]).start < now[k].end <= n
        && now[k].category != Category::Normal by {
        assert(before[k].start < before[k].end);
    }
    assert forall|j: int, k: int| 0 <= j < k < now.len() implies (#[trigger] now[j]).end <= (
    #[trigger] now[k]).start by {
        assert(before[j].end <= before[k].start);
    }
    assert forall|j: int, k: int| 0 <= j && k == j + 1 && k < now.len() implies !((
    #[trigger] now[j]).end == (#[trigger] now[k]).start && now[j].category
        == now[k].category) by {
        assert(now[j] == before[j]);
        assert(now[k].start == before[k].start);
        assert(now[k].category == before[k].category);
    }
    assert forall|i: int| 0 <= i < n implies #[trigger] category_at(now, i) == categories[i] by {
        if grown.start <= i {
            if i < n - 1 {
                assert(category_at(before, i) == c);
                assert(shorter[i] == categories[i]);
            }
        } else {
            assert(category_at(now, i) == category_at(before.drop_last(), i));
            assert(category_at(before, i) == category_at(before.drop_last(), i));
            assert(shorter[i] == categories[i]);
        }
    }
    assert forall|i: int| n <= i implies #[trigger] category_at(now, i) == Category::Normal by {
        assert(category_at(now, i) == category_at(before.drop_last(), i));
        assert(category_at(before, i) == category_at(before.drop_last(), i));
    }
}

proof fn lemma_describes_added(before: Seq<Span>, categories: Seq<Category>)
    requires
        0 < categories.len() <= usize::MAX,
        describes(before, categories.drop_last()),
        categories.last() != Category::Normal,
        !(before.len() > 0 && before.last().end == categories.len() - 1 && before.last().category
            == categories.last()),
    ensures
        describes(
            before.push(
                Span {
                    start: (categories.len() - 1) as usize,
                    end: categories.len() as usize,
                    category: categories.last(),
                },
            ),
            categories,
        ),
{
    let n = categories.len() as int;
    let c = categories.last();
    let shorter = categories.drop_last();
    let added = Span { start: (n - 1) as usize, end: n as usize, category: c };
    let now = before.push(added);
    assert(now.drop_last() =~= before);
    assert(now.last() == added);
    assert forall|k: int| 0 <= k < now.len() implies (#[trigger] now[k]).start < now[k].end <= n
        && now[k].category != Category::Normal by {
        if k < before.len() {
            assert(before[k].start < before[k].end);
        }
    }
    assert forall|j: int, k: int| 0 <= j < k < now.len() implies (#[trigger] now[j]).end <= (
    #[trigger] now[k]).start by {
        assert(before[j].start < before[j].end <= n - 1);
        if k < before.len() {
            assert(before[j].end <= before[k].start);
        }
    }
    assert forall|j: int, k: int| 0 <= j && k == j + 1 && k < now.len() implies !((
    #[trigger] now[j]).end == (#[trigger] now[k]).start && now[j].category
        == now[k].category) by {
        assert(now[j] == before[j]);
        if k < before.len() {
            assert(now[k] == before[k]);
        }
    }
    assert forall|i: int| 0 <= i < n implies #[trigger] category_at(now, i) == categories[i] by {
        if i < n - 1 {
            assert(category_at(now, i) == category_at(before, i));
            assert(shorter[i] == categories[i]);
        }
    }
    assert forall|i: int| n <= i implies #[trigger] category_at(now, i) == Category::Normal by {
        assert(category_at(now, i) == category_at(before, i));
    }
}

proof fn lemma_describes_skipped(before: Seq<Span>, categories: Seq<Category>)
    requires
        0 < categories.len(),
        describes(before, categories.drop_last()),
        categories.last() == Category::Normal,
    ensures
        describes(before, categories),
{
    let n = categories.len() as int;
    let shorter = categories.drop_last();
    assert forall|k: int| 0 <= k < before.len() implies (#[trigger] before[k]).start
        < before[k].end <= n by {
        assert(before[k].end <= n - 1);
    }
    assert forall|i: int| 0 <= i < n implies #[trigger] category_at(before, i) == categories[i] by {
        if i < n - 1 {
            assert(shorter[i] == categories[i]);
        }
    }
}

/// The spans of a sequence of categories say what the sequence says.
pub proof fn lemma_spans_of(categories: Seq<Category>)
    requires
        categories.len() <= usize::MAX,
    ensures
        describes(spans_of(categories), categories),
    decreases categories.len(),
{
    if categories.len() > 0 {
        let shorter = categories.drop_last();
        lemma_spans_of(shorter);
        let before = spans_of(shorter);
        let n = categories.len() as int;
        let c = categories.last();
        if c == Category::Normal {
            lemma_describes_skipped(before, categories);
        } else if before.len() > 0 && before.last().end == n - 1 && before.last().category == c {
            lemma_describes_grown(before, categories);
        } else {
            lemma_describes_added(before, categories);
        }
    }
}

/// The spans of a sequence of categories lie inside the row, in order.
pub proof fn lemma_spans_of_fit(categories: Seq<Category>)
    requires
        categories.len() <= usize::MAX,
    ensures
        spans_fit(spans_of(categories), categories.len() as int),
{
    lemma_spans_of(categories);
}

fn char_is_digit(c: char) -> (b: bool)
    ensures
        b == is_digit(c),
{
    '0' <= c && c <= '9'
}

fn char_is_word(c: char) -> (b: bool)
    ensures
        b == is_word_char(c),
{
    char_is_digit(c) || ('a' <= c && c <= 'z') || ('A' <= c && c <= 'Z') || c == '_'
}

fn scan_word(s: &Vec<char>, i: usize) -> (end: usize)
    requires
        i < s.len(),
        is_word_char(s@[i as int]),
    ensures
        end == word_end(s@, i as int),
        i < end <= s.len(),
{
    let mut j: usize = i + 1;
    while j < s.len() && char_is_word(s[j])
        invariant
            i < j <= s.len(),
            word_end(s@, j as int) == word_end(s@, i as int),
        decreases s.len() - j,
    {
        j += 1;
    }
    j
}

fn scan_string(s: &Vec<char>, i: usize) -> (end: usize)
    requires
        i <= s.len(),
    ensures
        end == string_end(s@, i as int),
        i <= end <= s.len(),
{
    let mut j: usize = i;
    while j < s.len()
        invariant
            i <= j <= s.len(),
            string_end(s@, j as int) == string_end(s@, i as int),
        decreases s.len() - j,
    {
        let c = s[j];
        if c == '"' {
            return j + 1;
        }
        if c == '\\' {
            if j + 1 >= s.len() {
                return s.len();
            }
            j += 2;
        } else {
            j += 1;
        }
    }
    j
}

fn scan_comment(s: &Vec<char>, i: usize) -> (close: usize)
    requires
        i <= s.len(),
    ensures
        close == comment_close(s@, i as int),
        i <= close <= s.len(),
        close < s.len() ==> close + 2 <= s.len(),
{
    let mut j: usize = i;
    while j < s.len()
        invariant
            i <= j <= s.len(),
            comment_close(s@, j as int) == comment_close(s@, i as int),
        decreases s.len() - j,
    {
        if s[j] == '*' && j + 1 < s.len() && s[j + 1] == '/' {
            return j;
        }
        j += 1;
    }
    j
}

fn scan_comment_token(s: &Vec<char>, i: usize) -> (token: (usize, Category, LexState))
    requires
        i <= s.len(),
    ensures
        (token.0 as int, token.1, token.2) == comment_token(s@, i as int),
        i <= token.0 <= s.len(),
{
    let close = scan_comment(s, i);
    if close < s.len() {
        (close + 2, Category::Comment, LexState::Code)
    } else {
        (s.len(), Category::Comment, LexState::BlockComment)
    }
}

fn same_word(s: &Vec<char>, i: usize, end: usize, word: &Vec<char>) -> (b: bool)
    requires
        i <= end <= s.len(),
    ensures
        b == (s@.subrange(i as int, end as int) == word@),
{
    if word.len() != end - i {
        return false;
    }
    let mut k: usize = 0;
    while k < word.len()
        invariant
            i <= end <= s.len(),
            word.len() == end - i,
            k <= word.len(),
            forall|j: int| 0 <= j < k ==> s@[i + j] == word@[j],
        decreases word.len() - k,
    {
        if s[i + k] != word[k] {
            assert(s@.subrange(i as int, end as int)[k as int] == s@[i + k]);
            return false;
        }
        k += 1;
    }
    assert(s@.subrange(i as int, end as int) =~= word@);
    true
}

fn is_keyword(rules: &SyntaxRules, s: &Vec<char>, i: usize, end: usize) -> (b: bool)
    requires
        i <= end <= s.len(),
    ensures
        b == rules@.keywords.contains(s@.subrange(i as int, end as int)),
{
    let ghost word = s@.subrange(i as int, end as int);
    let mut k: usize = 0;
    while k < rules.keywords.len()
        invariant
            i <= end <= s.len(),
            word == s@.subrange(i as int, end as int),
            k <= rules.keywords.len(),
            forall|j: int| 0 <= j < k ==> rules@.keywords[j] != word,
        decreases rules.keywords.len() - k,
    {
        if same_word(s, i, end, &rules.keywords[k]) {
            assert(rules@.keywords[k as int] == word);
            return true;
        }
        k += 1;
    }
    false
}

fn next_token(rules: &SyntaxRules, s: &Vec<char>, i: usize, state: LexState) -> (token: (
    usize,
    Category,
    LexState,
))
    requires
        i < s.len(),
    ensures
        (token.0 as int, token.1, token.2) == token_at(rules@, s@, i as int, state),
        i < token.0 <= s.len(),
{
    proof {
        lemma_token_bounds(rules@, s@, i as int, state);
    }
    match state {
        LexState::BlockComment => scan_comment_token(s, i),
        LexState::Code => {
            let c = s[i];
            let paired = i + 1 < s.len();
            if rules.block_comments && paired && c == '/' && s[i + 1] == '*' {
                scan_comment_token(s, i + 2)
            } else if rules.line_comments && paired && c == '/' && s[i + 1] == '/' {
                (s.len(), Category::Comment, LexState::Code)
            } else if rules.strings && c == '"' {
                (scan_string(s, i + 1), Category::StringLiteral, LexState::Code)
            } else if char_is_word(c) {
                let end = scan_word(s, i);
                let category = if char_is_digit(c) {
                    if rules.numbers {
                        Category::Number
                    } else {
                        Category::Normal
                    }
                } else if is_keyword(rules, s, i, end) {
                    Category::Keyword
                } else {
                    Category::Normal
                };
                (end, category, LexState::Code)
            } else {
                (i + 1, Category::Normal, LexState::Code)
            }
        },
    }
}

/// Classifies the characters of a row that begins in `state`.
pub fn lex_line(rules: &SyntaxRules, s: &Vec<char>, state: LexState) -> (lexed: (
    Vec<Category>,
    LexState,
))
    ensures
        lexed.0@ == lex_from(rules@, s@, 0, state).0,
        lexed.1 == lex_from(rules@, s@, 0, state).1,
{
    let mut categories: Vec<Category> = Vec::new();
    let mut now = state;
    let mut i: usize = 0;
    while i < s.len()
        invariant
            i <= s.len(),
            categories@ + lex_from(rules@, s@, i as int, now).0 == lex_from(rules@, s@, 0, state).0,
            lex_from(rules@, s@, i as int, now).1 == lex_from(rules@, s@, 0, state).1,
        decreases s.len() - i,
    {
        let (end, category, next) = next_token(rules, s, i, now);
        let ghost done = categories@;
        let ghost rest = lex_from(rules@, s@, end as int, next).0;
        let mut k: usize = i;
        while k < end
            invariant
                i <= k <= end,
                categories@ == done + Seq::new((k - i) as nat, |j: int| category),
            decreases end - k,
        {
            categories.push(category);
            k += 1;
            assert(done + Seq::new((k - i) as nat, |j: int| category) =~= (done + Seq::new(
                (k - 1 - i) as nat,
                |j: int| category,
            )).push(category));
        }
        assert((done + Seq::new((end - i) as nat, |j: int| category)) + rest =~= done + (Seq::new(
            (end - i) as nat,
            |j: int| category,
        ) + rest));
        i = end;
        now = next;
    }
    assert(categories@ + Seq::<Category>::empty() =~= categories@);
    (categories, now)
}

/// The character at `i` lies inside an occurrence of the term that begins
/// before column `bound`.
spec fn marked_before(s: Seq<char>, term: Seq<char>, i: int, bound: int) -> bool {
    exists|x: int| 0 <= x < bound && i - term.len() < x <= i && #[trigger] occurs_at(s, term, x)
}

/// Lays every occurrence of the search term over the categories.
pub fn mark_matches(categories: &mut Vec<Category>, s: &Vec<char>, term: &Vec<char>)
    requires
        old(categories).len() == s.len(),
    ensures
        final(categories)@ == overlay(old(categories)@, s@, term@),
{
    if term.len() == 0 || term.len() > s.len() {
        assert(categories@ =~= overlay(old(categories)@, s@, term@));
        return ;
    }
    let last: usize = s.len() - term.len();
    let mut x: usize = 0;
    while x <= last
        invariant
            x <= last + 1,
            last == s.len() - term.len(),
            term@.len() > 0,
            categories.len() == s.len(),
            forall|i: int|
                0 <= i < s.len() ==> #[trigger] categories@[i] == if marked_before(
                    s@,
                    term@,
                    i,
                    x as int,
                ) {
                    Category::SearchMatch
                } else {
                    old(categories)@[i]
                },
        decreases last + 1 - x,
    {
        if occurs(s, term, x) {
            let mut k: usize = x;
            while k < x + term.len()
                invariant
                    x <= k <= x + term.len(),
                    x + term.len() <= s.len(),
                    categories.len() == s.len(),
                    forall|i: int|
                        0 <= i < s.len() ==> #[trigger] categories@[i] == if marked_before(
                            s@,
                            term@,
                            i,
                            x as int,
                        ) || x <= i < k {
                            Category::SearchMatch
                        } else {
                            old(categories)@[i]
                        },
                decreases x + term.len() - k,
            {
                categories.set(k, Category::SearchMatch);
                k += 1;
            }
        }
        proof {
            assert forall|i: int| 0 <= i < s.len() implies marked_before(s@, term@, i, x + 1) == (
            marked_before(s@, term@, i, x as int) || (occurs_at(s@, term@, x as int) && x <= i < x
                + term.len())) by {
                if marked_before(s@, term@, i, x as int) {
                    let w = choose|w: int|
                        0 <= w < x && i - term@.len() < w <= i && occurs_at(s@, term@, w);
                    assert(0 <= w < x + 1 && occurs_at(s@, term@, w));
                }
                if occurs_at(s@, term@, x as int) && x <= i < x + term.len() {
                    assert(0 <= x < x + 1 && occurs_at(s@, term@, x as int));
                }
            }
        }
        x += 1;
    }
    assert forall|i: int| 0 <= i < s.len() implies marked_before(s@, term@, i, last + 1)
        == in_match(s@, term@, i) by {
        if in_match(s@, term@, i) {
            let w = choose|w: int| i - term@.len() < w <= i && occurs_at(s@, term@, w);
            assert(0 <= w < last + 1 && occurs_at(s@, term@, w));
        }
    }
    assert(categories@ =~= overlay(old(categories)@, s@, term@));
}

/// Writes the categories down as spans.
pub fn compress(categories: &Vec<Category>) -> (spans: Vec<Span>)
    ensures
        spans@ == spans_of(categories@),
{
    let mut spans: Vec<Span> = Vec::new();
    let mut i: usize = 0;
    while i < categories.len()
        invariant
            i <= categories.len(),
            spans@ == spans_of(categories@.take(i as int)),
        decreases categories.len() - i,
    {
        let c = categories[i];
        assert(categories@.take(i + 1).drop_last() =~= categories@.take(i as int));
        if c != Category::Normal {
            let n = spans.len();
            if n > 0 && spans[n - 1].end == i && spans[n - 1].category == c {
                let start = spans[n - 1].start;
                let ghost before = spans@;
                spans.set(n - 1, Span { start, end: i + 1, category: c });
                assert(spans@ =~= before.drop_last().push(
                    Span { start, end: (i + 1) as usize, category: c },
                ));
            } else {
                spans.push(Span { start: i, end: i + 1, category: c });
            }
        }
        i += 1;
    }
    assert(categories@.take(categories.len() as int) =~= categories@);
    spans
}

/// The highlight spans of a row that begins in `state`, and the state in
/// which it ends.
pub fn highlight_line(rules: &SyntaxRules, s: &Vec<char>, term: &Vec<char>, state: LexState) -> (out:
    (Vec<Span>, LexState))
    ensures
        out.0@ == row_spans(rules@, s@, term@, state),
        out.1 == exit_state(rules@, s@, state),
        spans_fit(out.0@, s@.len() as int),
{
    let (mut categories, exit) = lex_line(rules, s, state);
    proof {
        lemma_lex_length(rules@, s@, 0, state);
    }
    mark_matches(&mut categories, s, term);
    let spans = compress(&categories);
    proof {
        assert(categories@.len() == categories.len());
        lemma_spans_of_fit(categories@);
    }
    (spans, exit)
}

/// Every character from `i` on gets a category.
pub proof fn lemma_lex_length(rules: SyntaxView, s: Seq<char>, i: int, state: LexState)
    requires
        0 <= i <= s.len(),
    ensures
        lex_from(rules, s, i, state).0.len() == s.len() - i,
    decreases s.len() - i,
{
    if i < s.len() {
        lemma_token_bounds(rules, s, i, state);
        let (end, category, next) = token_at(rules, s, i, state);
        lemma_lex_length(rules, s, end, next);
    }
}

} // verus!
