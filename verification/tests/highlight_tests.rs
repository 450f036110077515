use revise::{Category, Document, Span};

fn span(start: usize, end: usize, category: Category) -> Span {
    Span { start, end, category }
}

fn spans_of_row(document: &Document, y: usize) -> Vec<Span> {
    document.row(y).unwrap().highlight_spans().clone()
}

fn all_spans(document: &Document) -> Vec<Vec<Span>> {
    (0..document.len()).map(|y| spans_of_row(document, y)).collect()
}

#[test]
fn rust_tokens_are_classified() {
    let mut document = Document::from_text("main.rs", "let x = 42; // hi");
    assert!(document.highlight(&None, None).is_ok());
    assert_eq!(
        spans_of_row(&document, 0),
        vec![
            span(0, 3, Category::Keyword),
            span(8, 10, Category::Number),
            span(12, 17, Category::Comment),
        ]
    );
}

#[test]
fn string_literals_end_at_the_closing_quote() {
    let mut document = Document::from_text("main.rs", "\"a\\\"b\" c\nx \"open");
    assert!(document.highlight(&None, None).is_ok());
    assert_eq!(spans_of_row(&document, 0), vec![span(0, 6, Category::StringLiteral)]);
    assert_eq!(spans_of_row(&document, 1), vec![span(2, 7, Category::StringLiteral)]);
}

#[test]
fn keywords_are_whole_words_only() {
    let mut document = Document::from_text("main.rs", "letter let fn_x fn if1 1if");
    assert!(document.highlight(&None, None).is_ok());
    assert_eq!(
        spans_of_row(&document, 0),
        vec![
            span(7, 10, Category::Keyword),
            span(16, 18, Category::Keyword),
            span(23, 26, Category::Number),
        ]
    );
}

#[test]
fn block_comments_run_over_rows() {
    let mut document = Document::from_text("main.rs", "a /* b\nlet\nc */ let\nlet");
    assert!(document.highlight(&None, None).is_ok());
    assert_eq!(spans_of_row(&document, 0), vec![span(2, 6, Category::Comment)]);
    assert_eq!(spans_of_row(&document, 1), vec![span(0, 3, Category::Comment)]);
    assert_eq!(
        spans_of_row(&document, 2),
        vec![span(0, 4, Category::Comment), span(5, 8, Category::Keyword)]
    );
    assert_eq!(spans_of_row(&document, 3), vec![span(0, 3, Category::Keyword)]);
}

#[test]
fn block_comment_closed_in_its_row_hands_nothing_on() {
    let mut document = Document::from_text("main.rs", "/* a */ 1 /**/\n2");
    assert!(document.highlight(&None, None).is_ok());
    assert_eq!(
        spans_of_row(&document, 0),
        vec![
            span(0, 7, Category::Comment),
            span(8, 9, Category::Number),
            span(10, 14, Category::Comment),
        ]
    );
    assert_eq!(spans_of_row(&document, 1), vec![span(0, 1, Category::Number)]);
}

#[test]
fn comment_marks_inside_strings_are_text() {
    let mut document = Document::from_text("main.rs", "\"// no\" 7");
    assert!(document.highlight(&None, None).is_ok());
    assert_eq!(
        spans_of_row(&document, 0),
        vec![span(0, 7, Category::StringLiteral), span(8, 9, Category::Number)]
    );
}

#[test]
fn file_of_no_type_has_no_lexical_spans() {
    let mut document = Document::from_text("notes.txt", "let x = 42; // hi \"s\"");
    assert!(document.highlight(&None, None).is_ok());
    assert!(spans_of_row(&document, 0).is_empty());
}

#[test]
fn search_term_is_marked_everywhere() {
    let mut document = Document::from_text("notes.txt", "abcabc\nxabcx\nnone");
    assert!(document.highlight(&Some(String::from("abc")), None).is_ok());
    assert_eq!(spans_of_row(&document, 0), vec![span(0, 6, Category::SearchMatch)]);
    assert_eq!(spans_of_row(&document, 1), vec![span(1, 4, Category::SearchMatch)]);
    assert!(spans_of_row(&document, 2).is_empty());
}

#[test]
fn overlapping_occurrences_are_all_marked() {
    let mut document = Document::from_text("notes.txt", "aaa b aa");
    assert!(document.highlight(&Some(String::from("aa")), None).is_ok());
    assert_eq!(
        spans_of_row(&document, 0),
        vec![span(0, 3, Category::SearchMatch), span(6, 8, Category::SearchMatch)]
    );
}

#[test]
fn search_match_lies_over_the_lexical_category() {
    let mut document = Document::from_text("main.rs", "let");
    assert!(document.highlight(&Some(String::from("e")), None).is_ok());
    assert_eq!(
        spans_of_row(&document, 0),
        vec![
            span(0, 1, Category::Keyword),
            span(1, 2, Category::SearchMatch),
            span(2, 3, Category::Keyword),
        ]
    );
}

#[test]
fn empty_search_term_marks_nothing() {
    let mut document = Document::from_text("notes.txt", "abc");
    assert!(document.highlight(&Some(String::new()), None).is_ok());
    assert!(spans_of_row(&document, 0).is_empty());
}

#[test]
fn highlight_stops_at_the_limit() {
    let mut document = Document::from_text("main.rs", "let\nlet\nlet");
    assert!(document.highlight(&None, Some(2)).is_ok());
    assert_eq!(spans_of_row(&document, 0), vec![span(0, 3, Category::Keyword)]);
    assert_eq!(spans_of_row(&document, 1), vec![span(0, 3, Category::Keyword)]);
    assert!(spans_of_row(&document, 2).is_empty());
    assert!(document.highlight(&None, Some(usize::MAX)).is_ok());
    assert_eq!(spans_of_row(&document, 2), vec![span(0, 3, Category::Keyword)]);
    assert!(document.highlight(&Some(String::from("l")), Some(0)).is_ok());
    assert_eq!(spans_of_row(&document, 0), vec![span(0, 3, Category::Keyword)]);
}

#[test]
fn highlight_twice_gives_the_same_spans() {
    let text = "fn main() { /* a\nb */ let s = \"x\"; // 12\n\tlet y = 0x1f;\n}";
    for word in [None, Some(String::from("let")), Some(String::from("a"))] {
        for limit in [None, Some(0), Some(2), Some(9)] {
            let mut document = Document::from_text("main.rs", text);
            assert!(document.highlight(&word, limit).is_ok());
            let once = all_spans(&document);
            assert!(document.highlight(&word, limit).is_ok());
            assert_eq!(all_spans(&document), once);
        }
    }
}

#[test]
fn highlight_changes_neither_text_nor_dirty_flag() {
    let mut document = Document::from_text("main.rs", "let a\n/* b");
    assert!(document.highlight(&Some(String::from("a")), None).is_ok());
    assert_eq!(document.to_text(), "let a\n/* b");
    assert!(!document.is_changed());
    assert_eq!(document.len(), 2);
}

#[test]
fn editing_a_row_drops_its_spans() {
    let mut document = Document::from_text("main.rs", "let\nlet");
    assert!(document.highlight(&None, None).is_ok());
    assert!(document.insert(&revise::Position { x: 0, y: 0 }, 'x').is_ok());
    assert!(spans_of_row(&document, 0).is_empty());
    assert_eq!(spans_of_row(&document, 1), vec![span(0, 3, Category::Keyword)]);
    assert!(document.highlight(&None, None).is_ok());
    assert!(spans_of_row(&document, 0).is_empty());
}

#[test]
fn spans_count_characters() {
    let mut document = Document::from_text("main.rs", "\u{4e16}\u{754c} let \"\u{e9}\"");
    assert!(document.highlight(&Some(String::from("\u{754c}")), None).is_ok());
    assert_eq!(
        spans_of_row(&document, 0),
        vec![
            span(1, 2, Category::SearchMatch),
            span(3, 6, Category::Keyword),
            span(7, 10, Category::StringLiteral),
        ]
    );
}

#[test]
fn cell_categories_follow_the_tab_expansion() {
    let mut document = Document::from_text("main.rs", "\tlet x\n//\tx");
    assert!(document.highlight(&None, None).is_ok());
    let row = document.row(0).unwrap();
    let mut cells = vec![Category::Normal; 8];
    cells.extend(vec![Category::Keyword; 3]);
    cells.extend(vec![Category::Normal; 2]);
    assert_eq!(row.render_categories(0, 100), cells);
    assert_eq!(row.render(0, 100).chars().count(), 13);
    assert_eq!(
        row.render_categories(7, 10),
        vec![Category::Normal, Category::Keyword, Category::Keyword]
    );
    assert_eq!(row.render(7, 10), " le");
    assert!(row.render_categories(13, 20).is_empty());
    assert!(row.render_categories(5, 2).is_empty());
    let comment = document.row(1).unwrap();
    assert_eq!(comment.render(0, 100), "//      x");
    assert_eq!(comment.render_categories(0, 100), vec![Category::Comment; 9]);
}

#[test]
fn cell_categories_of_a_row_without_spans_are_normal() {
    let document = Document::from_text("main.rs", "let\tx");
    let row = document.row(0).unwrap();
    assert_eq!(row.render_categories(0, 100), vec![Category::Normal; 9]);
    assert!(Document::from_text("a", "\n").row(0).unwrap().render_categories(0, 9).is_empty());
}
