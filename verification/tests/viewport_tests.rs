use revise::viewport::{move_cursor, scroll};
use revise::{Document, Movement, Position, Size};

fn spot(x: usize, y: usize) -> Position {
    Position { x, y }
}

fn sample() -> Document {
    Document::from_text("a", "hello\nhi\n\nlonger line")
}

#[test]
fn right_steps_and_wraps_to_the_next_row() {
    let document = sample();
    assert_eq!(move_cursor(&document, spot(0, 0), Movement::Right, 10), spot(1, 0));
    assert_eq!(move_cursor(&document, spot(5, 0), Movement::Right, 10), spot(0, 1));
    assert_eq!(move_cursor(&document, spot(11, 3), Movement::Right, 10), spot(0, 4));
    assert_eq!(move_cursor(&document, spot(0, 4), Movement::Right, 10), spot(0, 4));
}

#[test]
fn left_steps_and_wraps_to_the_end_of_the_row_above() {
    let document = sample();
    assert_eq!(move_cursor(&document, spot(3, 0), Movement::Left, 10), spot(2, 0));
    assert_eq!(move_cursor(&document, spot(0, 1), Movement::Left, 10), spot(5, 0));
    assert_eq!(move_cursor(&document, spot(0, 3), Movement::Left, 10), spot(0, 2));
    assert_eq!(move_cursor(&document, spot(0, 4), Movement::Left, 10), spot(11, 3));
    assert_eq!(move_cursor(&document, spot(0, 0), Movement::Left, 10), spot(0, 0));
}

#[test]
fn up_and_down_saturate() {
    let document = sample();
    assert_eq!(move_cursor(&document, spot(1, 0), Movement::Up, 10), spot(1, 0));
    assert_eq!(move_cursor(&document, spot(1, 1), Movement::Up, 10), spot(1, 0));
    assert_eq!(move_cursor(&document, spot(1, 0), Movement::Down, 10), spot(1, 1));
    assert_eq!(move_cursor(&document, spot(0, 3), Movement::Down, 10), spot(0, 4));
    assert_eq!(move_cursor(&document, spot(0, 4), Movement::Down, 10), spot(0, 4));
}

#[test]
fn vertical_moves_clamp_the_column() {
    let document = sample();
    assert_eq!(move_cursor(&document, spot(5, 0), Movement::Down, 10), spot(2, 1));
    assert_eq!(move_cursor(&document, spot(2, 1), Movement::Down, 10), spot(0, 2));
    assert_eq!(move_cursor(&document, spot(9, 3), Movement::Up, 10), spot(0, 2));
    assert_eq!(move_cursor(&document, spot(9, 3), Movement::Down, 10), spot(0, 4));
    assert_eq!(move_cursor(&document, spot(9, 3), Movement::PageUp, 2), spot(2, 1));
}

#[test]
fn page_moves_go_one_screen() {
    let document = Document::from_text("a", "0\n1\n2\n3\n4\n5\n6\n7\n8\n9");
    assert_eq!(move_cursor(&document, spot(0, 0), Movement::PageDown, 4), spot(0, 4));
    assert_eq!(move_cursor(&document, spot(0, 4), Movement::PageDown, 4), spot(0, 8));
    assert_eq!(move_cursor(&document, spot(0, 8), Movement::PageDown, 4), spot(0, 10));
    assert_eq!(move_cursor(&document, spot(0, 6), Movement::PageDown, 4), spot(0, 10));
    assert_eq!(move_cursor(&document, spot(0, 2), Movement::PageDown, usize::MAX), spot(0, 10));
    assert_eq!(move_cursor(&document, spot(0, 9), Movement::PageUp, 4), spot(0, 5));
    assert_eq!(move_cursor(&document, spot(0, 4), Movement::PageUp, 4), spot(0, 0));
    assert_eq!(move_cursor(&document, spot(0, 3), Movement::PageUp, 4), spot(0, 0));
    assert_eq!(move_cursor(&document, spot(0, 3), Movement::PageUp, 0), spot(0, 3));
}

#[test]
fn home_and_end_go_to_the_edges_of_the_row() {
    let document = sample();
    assert_eq!(move_cursor(&document, spot(3, 0), Movement::Home, 10), spot(0, 0));
    assert_eq!(move_cursor(&document, spot(3, 0), Movement::End, 10), spot(5, 0));
    assert_eq!(move_cursor(&document, spot(0, 2), Movement::End, 10), spot(0, 2));
    assert_eq!(move_cursor(&document, spot(0, 4), Movement::End, 10), spot(0, 4));
}

#[test]
fn movement_in_an_empty_document_stays_at_the_origin() {
    let document = Document::new();
    for movement in [
        Movement::Up,
        Movement::Down,
        Movement::Left,
        Movement::Right,
        Movement::PageUp,
        Movement::PageDown,
        Movement::Home,
        Movement::End,
    ] {
        assert_eq!(move_cursor(&document, spot(0, 0), movement, 10), spot(0, 0));
    }
}

#[test]
fn movement_keeps_a_valid_cursor_valid() {
    let document = sample();
    let movements = [
        Movement::Up,
        Movement::Down,
        Movement::Left,
        Movement::Right,
        Movement::PageUp,
        Movement::PageDown,
        Movement::Home,
        Movement::End,
    ];
    for y in 0..=document.len() {
        let length = document.row(y).map_or(0, |row| row.length());
        for x in 0..=length {
            for movement in movements {
                let to = move_cursor(&document, spot(x, y), movement, 2);
                assert!(to.y <= document.len());
                assert!(to.x <= document.row(to.y).map_or(0, |row| row.length()));
            }
        }
    }
}

#[test]
fn scroll_leaves_a_visible_cursor_alone() {
    let screen = Size { width: 80, height: 24 };
    assert_eq!(scroll(spot(0, 0), spot(0, 0), screen), spot(0, 0));
    assert_eq!(scroll(spot(79, 23), spot(0, 0), screen), spot(0, 0));
    assert_eq!(scroll(spot(12, 30), spot(10, 7), screen), spot(10, 7));
}

#[test]
fn scroll_snaps_to_a_cursor_above_or_left() {
    let screen = Size { width: 80, height: 24 };
    assert_eq!(scroll(spot(0, 3), spot(0, 7), screen), spot(0, 3));
    assert_eq!(scroll(spot(4, 9), spot(10, 7), screen), spot(4, 7));
}

#[test]
fn scroll_advances_no_further_than_needed() {
    let screen = Size { width: 80, height: 24 };
    assert_eq!(scroll(spot(0, 24), spot(0, 0), screen), spot(0, 1));
    assert_eq!(scroll(spot(0, 30), spot(0, 0), screen), spot(0, 7));
    assert_eq!(scroll(spot(80, 0), spot(0, 0), screen), spot(1, 0));
    assert_eq!(scroll(spot(200, 100), spot(3, 5), screen), spot(121, 77));
}

#[test]
fn scroll_puts_the_cursor_inside_the_window() {
    let sizes = [
        Size { width: 1, height: 1 },
        Size { width: 3, height: 5 },
        Size { width: 80, height: 24 },
        Size { width: usize::MAX, height: usize::MAX },
    ];
    let values = [0, 1, 2, 5, 23, 24, 79, 80, 1000, usize::MAX - 1, usize::MAX];
    for screen in sizes {
        for cursor in values {
            for offset in values {
                let to = scroll(spot(cursor, cursor), spot(offset, offset), screen);
                assert!(to.x <= cursor);
                assert!(cursor - to.x < screen.width);
                assert!(to.y <= cursor);
                assert!(cursor - to.y < screen.height);
            }
        }
    }
}

#[test]
fn scroll_on_a_screen_without_cells() {
    let screen = Size { width: 0, height: 0 };
    assert_eq!(scroll(spot(2, 2), spot(5, 5), screen), spot(2, 2));
    assert_eq!(scroll(spot(5, 5), spot(2, 2), screen), spot(6, 6));
    assert_eq!(
        scroll(spot(usize::MAX, 0), spot(0, 0), screen),
        spot(usize::MAX, 1)
    );
}
