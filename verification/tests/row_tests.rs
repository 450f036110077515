use revise::Row;

#[test]
fn row_keeps_its_text() {
    let row = Row::new("hello");
    assert_eq!(row.as_text(), "hello");
    assert_eq!(row.length(), 5);
    assert!(!row.is_empty());
    assert!(row.highlight_spans().is_empty());
}

#[test]
fn empty_row_has_no_characters() {
    let row = Row::empty();
    assert_eq!(row.length(), 0);
    assert!(row.is_empty());
    assert_eq!(row.as_text(), "");
    assert_eq!(row.render(0, 10), "");
}

#[test]
fn row_counts_characters_not_bytes() {
    let row = Row::new("h\u{e9}llo \u{4e16}\u{754c}");
    assert_eq!(row.length(), 8);
    assert_eq!(row.render(1, 2), "\u{e9}");
    assert_eq!(row.render(6, 8), "\u{4e16}\u{754c}");
}

#[test]
fn insert_char_puts_the_character_before_the_column() {
    let mut row = Row::new("hllo");
    row.insert_char(1, 'e');
    assert_eq!(row.as_text(), "hello");
    row.insert_char(0, '>');
    assert_eq!(row.as_text(), ">hello");
}

#[test]
fn insert_char_beyond_the_end_appends() {
    let mut row = Row::new("ab");
    row.insert_char(2, 'c');
    assert_eq!(row.as_text(), "abc");
    row.insert_char(100, 'd');
    assert_eq!(row.as_text(), "abcd");
}

#[test]
fn insert_char_never_splits_a_multibyte_character() {
    let mut row = Row::new("\u{4e16}\u{754c}");
    row.insert_char(1, '-');
    assert_eq!(row.as_text(), "\u{4e16}-\u{754c}");
}

#[test]
fn delete_char_removes_the_character_at_the_column() {
    let mut row = Row::new("hello");
    row.delete_char(0);
    assert_eq!(row.as_text(), "ello");
    row.delete_char(3);
    assert_eq!(row.as_text(), "ell");
}

#[test]
fn delete_char_out_of_range_changes_nothing() {
    let mut row = Row::new("hello");
    row.delete_char(5);
    assert_eq!(row.as_text(), "hello");
    row.delete_char(usize::MAX);
    assert_eq!(row.as_text(), "hello");
}

#[test]
fn split_cuts_the_row_at_the_column() {
    let mut row = Row::new("hello world");
    let tail = row.split(5);
    assert_eq!(row.as_text(), "hello");
    assert_eq!(tail.as_text(), " world");
}

#[test]
fn split_at_the_edges() {
    let mut row = Row::new("abc");
    let tail = row.split(0);
    assert_eq!(row.as_text(), "");
    assert_eq!(tail.as_text(), "abc");
    let mut other = Row::new("abc");
    let rest = other.split(7);
    assert_eq!(other.as_text(), "abc");
    assert_eq!(rest.as_text(), "");
}

#[test]
fn merge_appends_the_other_row() {
    let mut row = Row::new("hello");
    row.merge(&Row::new("world"));
    assert_eq!(row.as_text(), "helloworld");
    assert_eq!(row.length(), 10);
    row.merge(&Row::empty());
    assert_eq!(row.as_text(), "helloworld");
}

#[test]
fn split_then_merge_gives_the_row_back() {
    let mut row = Row::new("hello world");
    let tail = row.split(4);
    row.merge(&tail);
    assert_eq!(row.as_text(), "hello world");
}

#[test]
fn render_returns_the_columns_asked_for() {
    let row = Row::new("hello world");
    assert_eq!(row.render(0, 5), "hello");
    assert_eq!(row.render(6, 11), "world");
    assert_eq!(row.render(0, 11), "hello world");
}

#[test]
fn render_clamps_its_bounds() {
    let row = Row::new("hello");
    assert_eq!(row.render(0, 100), "hello");
    assert_eq!(row.render(3, usize::MAX), "lo");
    assert_eq!(row.render(5, 9), "");
    assert_eq!(row.render(50, 60), "");
    assert_eq!(row.render(4, 2), "");
}

#[test]
fn render_expands_tabs_to_the_next_tab_stop() {
    let row = Row::new("a\tb");
    assert_eq!(row.render(0, 100), "a       b");
    assert_eq!(row.length(), 3);
    let leading = Row::new("\tx");
    assert_eq!(leading.render(0, 100), "        x");
    let full = Row::new("12345678\tx");
    assert_eq!(full.render(0, 100), "12345678        x");
    assert_eq!(row.render(1, 3), "  ");
}

#[test]
fn render_shows_control_characters_as_question_marks() {
    let row = Row::new("a\u{1}b\u{7f}c");
    assert_eq!(row.render(0, 100), "a?b?c");
    assert_eq!(row.as_text(), "a\u{1}b\u{7f}c");
}

#[test]
fn render_follows_every_change_of_the_text() {
    let mut row = Row::new("ab");
    row.insert_char(1, '\t');
    assert_eq!(row.render(0, 100), "a       b");
    row.delete_char(1);
    assert_eq!(row.render(0, 100), "ab");
    let tail = row.split(1);
    assert_eq!(row.render(0, 100), "a");
    assert_eq!(tail.render(0, 100), "b");
}

#[test]
fn chars_gives_the_characters_in_order() {
    let row = Row::new("abc");
    assert_eq!(*row.chars(), vec!['a', 'b', 'c']);
}
