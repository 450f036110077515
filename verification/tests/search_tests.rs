use revise::{Document, Position, SearchDirection};

fn place(x: usize, y: usize) -> Position {
    Position { x, y }
}

#[test]
fn forward_search_skips_the_starting_column_and_wraps() {
    let document = Document::from_text("a", "abcabc");
    let first = document.find("abc", &place(0, 0), SearchDirection::Forward);
    assert_eq!(first, Some(place(3, 0)));
    let second = document.find("abc", &place(3, 0), SearchDirection::Forward);
    assert_eq!(second, Some(place(0, 0)));
}

#[test]
fn backward_search_skips_the_starting_column_and_wraps() {
    let document = Document::from_text("a", "abcabc");
    assert_eq!(document.find("abc", &place(3, 0), SearchDirection::Backward), Some(place(0, 0)));
    assert_eq!(document.find("abc", &place(0, 0), SearchDirection::Backward), Some(place(3, 0)));
    assert_eq!(document.find("abc", &place(5, 0), SearchDirection::Backward), Some(place(3, 0)));
}

#[test]
fn empty_query_is_never_found() {
    let document = Document::from_text("a", "abc\ndef");
    assert_eq!(document.find("", &place(0, 0), SearchDirection::Forward), None);
    assert_eq!(document.find("", &place(1, 1), SearchDirection::Backward), None);
}

#[test]
fn absent_query_is_not_found() {
    let document = Document::from_text("a", "abc\ndef");
    assert_eq!(document.find("xyz", &place(0, 0), SearchDirection::Forward), None);
    assert_eq!(document.find("abcd", &place(0, 0), SearchDirection::Forward), None);
    assert_eq!(document.find("cd", &place(2, 1), SearchDirection::Backward), None);
    assert_eq!(Document::new().find("a", &place(0, 0), SearchDirection::Forward), None);
}

#[test]
fn forward_search_goes_right_then_down() {
    let document = Document::from_text("a", "foo bar\nbaz\nbar foo");
    assert_eq!(document.find("foo", &place(0, 0), SearchDirection::Forward), Some(place(4, 2)));
    assert_eq!(document.find("bar", &place(0, 0), SearchDirection::Forward), Some(place(4, 0)));
    assert_eq!(document.find("bar", &place(4, 0), SearchDirection::Forward), Some(place(0, 2)));
    assert_eq!(document.find("ba", &place(4, 0), SearchDirection::Forward), Some(place(0, 1)));
}

#[test]
fn forward_search_wraps_from_the_last_row_to_the_first() {
    let document = Document::from_text("a", "foo bar\nbaz\nbar foo");
    assert_eq!(document.find("foo", &place(4, 2), SearchDirection::Forward), Some(place(0, 0)));
    assert_eq!(document.find("baz", &place(2, 1), SearchDirection::Forward), Some(place(0, 1)));
    assert_eq!(document.find("baz", &place(0, 1), SearchDirection::Forward), Some(place(0, 1)));
}

#[test]
fn backward_search_goes_left_then_up() {
    let document = Document::from_text("a", "foo bar\nbaz\nbar foo");
    assert_eq!(document.find("foo", &place(4, 2), SearchDirection::Backward), Some(place(0, 0)));
    assert_eq!(document.find("ba", &place(7, 2), SearchDirection::Backward), Some(place(0, 2)));
    assert_eq!(document.find("ba", &place(0, 2), SearchDirection::Backward), Some(place(0, 1)));
    assert_eq!(document.find("ba", &place(0, 1), SearchDirection::Backward), Some(place(4, 0)));
}

#[test]
fn backward_search_wraps_from_the_first_row_to_the_last() {
    let document = Document::from_text("a", "foo bar\nbaz\nbar foo");
    assert_eq!(document.find("foo", &place(0, 0), SearchDirection::Backward), Some(place(4, 2)));
    assert_eq!(document.find("bar", &place(4, 0), SearchDirection::Backward), Some(place(0, 2)));
}

#[test]
fn search_from_the_sentinel_row_sees_every_row() {
    let document = Document::from_text("a", "foo bar\nbaz\nbar foo");
    assert_eq!(document.find("foo", &place(0, 3), SearchDirection::Forward), Some(place(0, 0)));
    assert_eq!(document.find("foo", &place(0, 3), SearchDirection::Backward), Some(place(4, 2)));
    assert_eq!(document.find("baz", &place(9, 40), SearchDirection::Forward), Some(place(0, 1)));
}

#[test]
fn search_finds_overlapping_matches() {
    let document = Document::from_text("a", "aaaa");
    assert_eq!(document.find("aa", &place(0, 0), SearchDirection::Forward), Some(place(1, 0)));
    assert_eq!(document.find("aa", &place(1, 0), SearchDirection::Forward), Some(place(2, 0)));
    assert_eq!(document.find("aa", &place(2, 0), SearchDirection::Forward), Some(place(0, 0)));
    assert_eq!(document.find("aa", &place(2, 0), SearchDirection::Backward), Some(place(1, 0)));
}

#[test]
fn search_is_case_sensitive_and_literal() {
    let document = Document::from_text("a", "Abc a.c abc");
    assert_eq!(document.find("abc", &place(0, 0), SearchDirection::Forward), Some(place(8, 0)));
    assert_eq!(document.find("a.c", &place(0, 0), SearchDirection::Forward), Some(place(4, 0)));
    assert_eq!(document.find("a.c", &place(4, 0), SearchDirection::Forward), Some(place(4, 0)));
}

#[test]
fn search_counts_columns_in_characters() {
    let document = Document::from_text("a", "\u{4e16}\u{754c} caf\u{e9} \u{754c}");
    assert_eq!(document.find("\u{754c}", &place(0, 0), SearchDirection::Forward), Some(place(1, 0)));
    assert_eq!(document.find("\u{754c}", &place(1, 0), SearchDirection::Forward), Some(place(8, 0)));
    assert_eq!(document.find("caf\u{e9}", &place(0, 0), SearchDirection::Forward), Some(place(3, 0)));
}

#[test]
fn repeated_forward_search_comes_back_to_the_first_match() {
    let texts = ["abcabc", "foo bar\nbaz\nbar foo\nfoofoo", "aaaa\n\naa", "x"];
    let queries = ["abc", "foo", "aa", "x", "ba"];
    for text in texts {
        let document = Document::from_text("a", text);
        for query in queries {
            let mut all = Vec::new();
            for y in 0..document.len() {
                let row = document.row(y).unwrap().as_text();
                for (x, _) in row.char_indices() {
                    if row[x..].starts_with(query) {
                        all.push(place(row[..x].chars().count(), y));
                    }
                }
            }
            if all.is_empty() {
                assert_eq!(document.find(query, &place(0, 0), SearchDirection::Forward), None);
                continue;
            }
            for start in &all {
                let mut current = *start;
                let mut seen = Vec::new();
                for _ in 0..all.len() {
                    current = document.find(query, &current, SearchDirection::Forward).unwrap();
                    seen.push(current);
                }
                assert_eq!(current, *start);
                seen.sort_by_key(|p| (p.y, p.x));
                assert_eq!(seen, all);
            }
        }
    }
}

#[test]
fn backward_search_undoes_forward_search() {
    let document = Document::from_text("a", "foo bar\nbaz\nbar foo\nfoofoo");
    let start = place(4, 2);
    let next = document.find("foo", &start, SearchDirection::Forward).unwrap();
    assert_eq!(next, place(0, 3));
    assert_eq!(document.find("foo", &next, SearchDirection::Backward), Some(start));
}
