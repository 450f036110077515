//! Search for a literal text through the buffer, forward or backward from a
//! position, going round the ends of the buffer once.

use vstd::prelude::*;
use crate::document::{Document, valid_position};
use crate::position::{Position, SearchDirection};
use crate::text::chars_of;

verus! {

/// `query` stands in `row` at column `x`.
pub open spec fn occurs_at(row: Seq<char>, query: Seq<char>, x: int) -> bool {
    0 <= x && x + query.len() <= row.len() && row.subrange(x, x + query.len()) == query
}

/// A match: the query is not empty and stands at `at`. A match is named by
/// the position of its first character.
pub open spec fn is_match(text: Seq<Seq<char>>, query: Seq<char>, at: Position) -> bool {
    query.len() > 0 && at.y < text.len() && occurs_at(text[at.y as int], query, at.x as int)
}

/// How many row steps a forward search from `from` has made, in a buffer
/// of `rows` rows, when it comes to `at`. The part of the starting row
/// behind the starting column is searched first, then the rows below, then
/// the rows from the top down to the starting row, whose part up to the
/// starting column comes last.
pub open spec fn forward_rank(rows: int, from: Position, at: Position) -> int {
    if at.y == from.y {
        if at.x > from.x {
            0
        } else {
            rows
        }
    } else if at.y > from.y {
        at.y - from.y
    } else {
        at.y + rows - from.y
    }
}

/// How many row steps a backward search has made when it comes to `at`:
/// the mirror image of the forward search.
pub open spec fn backward_rank(rows: int, from: Position, at: Position) -> int {
    if at.y == from.y {
        if at.x < from.x {
            0
        } else {
            rows
        }
    } else if at.y < from.y {
        from.y - at.y
    } else {
        from.y + rows - at.y
    }
}

/// A search from `from` in the given direction comes to `a` no later than
/// to `b`.
pub open spec fn reached_first(
    rows: int,
    from: Position,
    direction: SearchDirection,
    a: Position,
    b: Position,
) -> bool {
    match direction {
        SearchDirection::Forward => forward_rank(rows, from, a) < forward_rank(rows, from, b) || (
        forward_rank(rows, from, a) == forward_rank(rows, from, b) && a.x <= b.x),
        SearchDirection::Backward => backward_rank(rows, from, a) < backward_rank(rows, from, b)
            || (backward_rank(rows, from, a) == backward_rank(rows, from, b) && a.x >= b.x),
    }
}

/// `hit` is the match that a search from `from` comes to first.
pub open spec fn is_next_match(
    text: Seq<Seq<char>>,
    query: Seq<char>,
    from: Position,
    direction: SearchDirection,
    hit: Position,
) -> bool {
    &&& is_match(text, query, hit)
    &&& forall|other: Position| #[trigger]
        is_match(text, query, other) ==> reached_first(text.len() as int, from, direction, hit, other)
}

/// The match that a search from `from` comes to first, if the query has
/// any match in the buffer.
pub open spec fn next_match(
    text: Seq<Seq<char>>,
    query: Seq<char>,
    from: Position,
    direction: SearchDirection,
) -> Option<Position> {
    if exists|hit: Position| is_next_match(text, query, from, direction, hit) {
        Some(choose|hit: Position| is_next_match(text, query, from, direction, hit))
    } else {
        None
    }
}

/// No two matches are reached first: the next match is the only one.
pub proof fn lemma_next_match_is_unique(
    text: Seq<Seq<char>>,
    query: Seq<char>,
    from: Position,
    direction: SearchDirection,
    hit: Position,
)
    requires
        is_next_match(text, query, from, direction, hit),
    ensures
        next_match(text, query, from, direction) == Some(hit),
{
    let chosen = choose|h: Position| is_next_match(text, query, from, direction, h);
    assert(is_match(text, query, chosen));
    assert(is_match(text, query, hit));
    assert(reached_first(text.len() as int, from, direction, hit, chosen));
    assert(reached_first(text.len() as int, from, direction, chosen, hit));
}

pub(crate) fn occurs(row: &Vec<char>, query: &Vec<char>, x: usize) -> (b: bool)
    requires
        x + query.len() <= row.len(),
    ensures
        b == occurs_at(row@, query@, x as int),
{
    let mut k: usize = 0;
    while k < query.len()
        invariant
            k <= query.len(),
            x + query.len() <= row.len(),
            forall|j: int| 0 <= j < k ==> row@[x + j] == query@[j],
        decreases query.len() - k,
    {
        if row[x + k] != query[k] {
            assert(row@.subrange(x as int, x + query.len())[k as int] == row@[x + k]);
            return false;
        }
        k += 1;
    }
    assert(row@.subrange(x as int, x + query.len()) =~= query@);
    true
}

/// The first column at or behind `lo` at which the query stands.
fn first_occurrence(row: &Vec<char>, query: &Vec<char>, lo: usize) -> (found: Option<usize>)
    requires
        query@.len() > 0,
    ensures
        match found {
            Some(x) => lo <= x && occurs_at(row@, query@, x as int) && forall|k: int|
                lo <= k < x ==> !occurs_at(row@, query@, k),
            None => forall|k: int| lo <= k ==> !occurs_at(row@, query@, k),
        },
{
    if query.len() > row.len() {
        return None;
    }
    let last: usize = row.len() - query.len();
    let mut x: usize = lo;
    while x <= last
        invariant
            lo <= x,
            last == row.len() - query.len(),
            query@.len() > 0,
            forall|k: int| lo <= k < x ==> !occurs_at(row@, query@, k),
        decreases last + 1 - x,
    {
        if occurs(row, query, x) {
            return Some(x);
        }
        x += 1;
    }
    None
}

/// The last column before `hi` at which the query stands.
fn last_occurrence(row: &Vec<char>, query: &Vec<char>, hi: usize) -> (found: Option<usize>)
    requires
        query@.len() > 0,
    ensures
        match found {
            Some(x) => x < hi && occurs_at(row@, query@, x as int) && forall|k: int|
                x < k < hi ==> !occurs_at(row@, query@, k),
            None => forall|k: int| k < hi ==> !occurs_at(row@, query@, k),
        },
{
    if query.len() > row.len() {
        return None;
    }
    let last: usize = row.len() - query.len();
    let mut x: usize = if hi <= last {
        hi
    } else {
        last + 1
    };
    while x > 0
        invariant
            x <= hi,
            x <= last + 1,
            last == row.len() - query.len(),
            forall|k: int| x <= k < hi ==> !occurs_at(row@, query@, k),
        decreases x,
    {
        x -= 1;
        if occurs(row, query, x) {
            return Some(x);
        }
    }
    None
}

/// Every match lies at least `bound` row steps of a search away.
spec fn none_before(
    text: Seq<Seq<char>>,
    query: Seq<char>,
    from: Position,
    direction: SearchDirection,
    bound: int,
) -> bool {
    forall|m: Position| #[trigger]
        is_match(text, query, m) ==> match direction {
            SearchDirection::Forward => forward_rank(text.len() as int, from, m) >= bound,
            SearchDirection::Backward => backward_rank(text.len() as int, from, m) >= bound,
        }
}

fn first_in_row(document: &Document, query: &Vec<char>, y: usize, lo: usize) -> (found: Option<
    usize,
>)
    requires
        document.wf(),
        y < document@.rows.len(),
        query@.len() > 0,
    ensures
        document@.text()[y as int].len() <= usize::MAX,
        match found {
            Some(x) => lo <= x && occurs_at(document@.text()[y as int], query@, x as int)
                && forall|k: int| lo <= k < x ==> !occurs_at(document@.text()[y as int], query@, k),
            None => forall|k: int| lo <= k ==> !occurs_at(document@.text()[y as int], query@, k),
        },
{
    match document.row(y) {
        Some(row) => {
            let chars = row.chars();
            assert(chars@.len() == chars.len());
            first_occurrence(chars, query, lo)
        },
        None => None,
    }
}

fn last_in_row(document: &Document, query: &Vec<char>, y: usize, hi: usize) -> (found: Option<
    usize,
>)
    requires
        document.wf(),
        y < document@.rows.len(),
        query@.len() > 0,
    ensures
        document@.text()[y as int].len() <= usize::MAX,
        match found {
            Some(x) => x < hi && occurs_at(document@.text()[y as int], query@, x as int)
                && forall|k: int| x < k < hi ==> !occurs_at(document@.text()[y as int], query@, k),
            None => forall|k: int| k < hi ==> !occurs_at(document@.text()[y as int], query@, k),
        },
{
    match document.row(y) {
        Some(row) => {
            let chars = row.chars();
            assert(chars@.len() == chars.len());
            last_occurrence(chars, query, hi)
        },
        None => None,
    }
}

fn find_forward(document: &Document, query: &Vec<char>, from: Position) -> (found: Option<
    Position,
>)
    requires
        document.wf(),
        query@.len() > 0,
    ensures
        match found {
            Some(hit) => is_next_match(
                document@.text(),
                query@,
                from,
                SearchDirection::Forward,
                hit,
            ),
            None => forall|at: Position| !is_match(document@.text(), query@, at),
        },
{
    let ghost text = document@.text();
    let ghost forward = SearchDirection::Forward;
    let rows = document.len();
    if from.y < rows && from.x < usize::MAX {
        if let Some(x) = first_in_row(document, query, from.y, from.x + 1) {
            return Some(Position { x, y: from.y });
        }
    }
    assert(none_before(text, query@, from, forward, if from.y < rows { 1int } else { rows - from.y }));
    let mut y: usize = if from.y < rows {
        from.y + 1
    } else {
        rows
    };
    while y < rows
        invariant
            document.wf(),
            text == document@.text(),
            rows == text.len(),
            query@.len() > 0,
            y <= rows,
            from.y < y || y == rows,
            none_before(text, query@, from, SearchDirection::Forward, y - from.y),
        decreases rows - y,
    {
        if let Some(x) = first_in_row(document, query, y, 0) {
            return Some(Position { x, y });
        }
        y += 1;
    }
    let stop: usize = if from.y < rows {
        from.y
    } else {
        rows
    };
    y = 0;
    while y < stop
        invariant
            document.wf(),
            text == document@.text(),
            rows == text.len(),
            query@.len() > 0,
            y <= stop <= rows,
            stop <= from.y,
            none_before(text, query@, from, SearchDirection::Forward, y + rows - from.y),
        decreases stop - y,
    {
        if let Some(x) = first_in_row(document, query, y, 0) {
            return Some(Position { x, y });
        }
        y += 1;
    }
    if from.y < rows {
        if let Some(x) = first_in_row(document, query, from.y, 0) {
            let hit = Position { x, y: from.y };
            assert(is_match(text, query@, hit));
            return Some(hit);
        }
    }
    assert forall|at: Position| !is_match(text, query@, at) by {
        if is_match(text, query@, at) {
            assert(forward_rank(rows as int, from, at) >= stop + rows - from.y);
        }
    }
    None
}

fn find_backward(document: &Document, query: &Vec<char>, from: Position) -> (found: Option<
    Position,
>)
    requires
        document.wf(),
        query@.len() > 0,
    ensures
        match found {
            Some(hit) => is_next_match(
                document@.text(),
                query@,
                from,
                SearchDirection::Backward,
                hit,
            ),
            None => forall|at: Position| !is_match(document@.text(), query@, at),
        },
{
    let ghost text = document@.text();
    let rows = document.len();
    if from.y < rows {
        if let Some(x) = last_in_row(document, query, from.y, from.x) {
            return Some(Position { x, y: from.y });
        }
    }
    let mut y: usize = if from.y < rows {
        from.y
    } else {
        rows
    };
    while y > 0
        invariant
            document.wf(),
            text == document@.text(),
            rows == text.len(),
            query@.len() > 0,
            y <= rows,
            y <= from.y,
            none_before(text, query@, from, SearchDirection::Backward, from.y - y + 1),
        decreases y,
    {
        y -= 1;
        if let Some(x) = last_in_row(document, query, y, usize::MAX) {
            return Some(Position { x, y });
        }
    }
    if from.y < rows {
        y = rows;
        while y > from.y + 1
            invariant
                document.wf(),
                text == document@.text(),
                rows == text.len(),
                query@.len() > 0,
                from.y < y <= rows,
                none_before(text, query@, from, SearchDirection::Backward, from.y + rows - y + 1),
            decreases y,
        {
            y -= 1;
            if let Some(x) = last_in_row(document, query, y, usize::MAX) {
                return Some(Position { x, y });
            }
        }
        if let Some(x) = last_in_row(document, query, from.y, usize::MAX) {
            let hit = Position { x, y: from.y };
            assert(is_match(text, query@, hit));
            return Some(hit);
        }
    }
    assert forall|at: Position| !is_match(text, query@, at) by {
        if is_match(text, query@, at) {
            assert(backward_rank(rows as int, from, at) >= 1);
        }
    }
    None
}

impl Document {
    /// Searches for the next place at which `query` stands, starting at
    /// `from` and going in `direction`, round the end of the buffer if
    /// need be. An empty query, or one that stands nowhere, is not found.
    pub fn find(&self, query: &str, from: &Position, direction: SearchDirection) -> (found:
        Option<Position>)
        requires
            self.wf(),
        ensures
            found == next_match(self@.text(), query@, *from, direction),
            query@.len() == 0 ==> found is None,
            found is None <==> forall|at: Position| !is_match(self@.text(), query@, at),
            found is Some ==> is_next_match(self@.text(), query@, *from, direction, found->0),
            found is Some ==> valid_position(self@.text(), found->0),
    {
        let needle = chars_of(query);
        if needle.len() == 0 {
            return None;
        }
        let found = match direction {
            SearchDirection::Forward => find_forward(self, &needle, *from),
            SearchDirection::Backward => find_backward(self, &needle, *from),
        };
        proof {
            match found {
                Some(hit) => {
                    lemma_next_match_is_unique(self@.text(), query@, *from, direction, hit);
                },
                None => {},
            }
        }
        found
    }
}

/// `a` comes before `b` in document order: in a row above, or in the same
/// row further to the left.
pub open spec fn precedes(a: Position, b: Position) -> bool {
    a.y < b.y || (a.y == b.y && a.x < b.x)
}

/// The matches of row `y` that begin before column `upto`, from left to
/// right.
pub open spec fn row_matches(row: Seq<char>, query: Seq<char>, y: usize, upto: int) -> Seq<
    Position,
>
    decreases upto,
{
    if upto <= 0 {
        Seq::empty()
    } else {
        let before = row_matches(row, query, y, upto - 1);
        if query.len() > 0 && occurs_at(row, query, upto - 1) {
            before.push(Position { x: (upto - 1) as usize, y })
        } else {
            before
        }
    }
}

/// The matches in the first `rows` rows, in document order.
pub open spec fn matches_in(text: Seq<Seq<char>>, query: Seq<char>, rows: int) -> Seq<Position>
    decreases rows,
{
    if rows <= 0 {
        Seq::empty()
    } else {
        matches_in(text, query, rows - 1) + row_matches(
            text[rows - 1],
            query,
            (rows - 1) as usize,
            text[rows - 1].len() as int,
        )
    }
}

/// All matches of the query in the buffer, in document order.
pub open spec fn all_matches(text: Seq<Seq<char>>, query: Seq<char>) -> Seq<Position> {
    matches_in(text, query, text.len() as int)
}

/// The place that `times` forward searches in a row lead to, each one
/// starting where the one before has ended, the first one at `from`.
pub open spec fn search_forward_times(
    text: Seq<Seq<char>>,
    query: Seq<char>,
    from: Position,
    times: nat,
) -> Option<Position>
    decreases times,
{
    if times == 0 {
        Some(from)
    } else {
        match search_forward_times(text, query, from, (times - 1) as nat) {
            Some(at) => next_match(text, query, at, SearchDirection::Forward),
            None => None,
        }
    }
}

/// The text can be held in memory: the number of rows and the length of
/// each row are machine numbers.
pub open spec fn text_fits(text: Seq<Seq<char>>) -> bool {
    &&& text.len() <= usize::MAX
    &&& forall|y: int| 0 <= y < text.len() ==> (#[trigger] text[y]).len() <= usize::MAX
}

/// `found` lists the matches in the first `rows` rows: each of its items
/// is such a match, they stand in document order, and no such match is
/// missing.
spec fn lists_matches(text: Seq<Seq<char>>, query: Seq<char>, found: Seq<Position>, rows: int) -> bool {
    &&& forall|i: int|
        0 <= i < found.len() ==> is_match(text, query, #[trigger] found[i]) && found[i].y < rows
    &&& forall|i: int, j: int|
        0 <= i < j < found.len() ==> precedes(#[trigger] found[i], #[trigger] found[j])
    &&& forall|at: Position| #[trigger]
        is_match(text, query, at) && at.y < rows ==> found.contains(at)
}

proof fn lemma_row_matches(row: Seq<char>, query: Seq<char>, y: usize, upto: int)
    requires
        upto <= usize::MAX + 1,
    ensures
        forall|i: int|
            0 <= i < row_matches(row, query, y, upto).len() ==> {
                let at = #[trigger] row_matches(row, query, y, upto)[i];
                at.y == y && at.x < upto && query.len() > 0 && occurs_at(row, query, at.x as int)
            },
        forall|i: int, j: int|
            0 <= i < j < row_matches(row, query, y, upto).len() ==> (#[trigger] row_matches(
                row,
                query,
                y,
                upto,
            )[i]).x < (#[trigger] row_matches(row, query, y, upto)[j]).x,
        forall|x: usize|
            x < upto && query.len() > 0 && #[trigger] occurs_at(row, query, x as int)
                ==> row_matches(row, query, y, upto).contains(Position { x, y }),
    decreases upto,
{
    if upto > 0 {
        lemma_row_matches(row, query, y, upto - 1);
        let before = row_matches(row, query, y, upto - 1);
        let now = row_matches(row, query, y, upto);
        assert forall|x: usize|
            x < upto && query.len() > 0 && #[trigger] occurs_at(
                row,
                query,
                x as int,
            ) implies now.contains(Position { x, y }) by {
            let at = Position { x, y };
            if x < upto - 1 {
                let i = choose|i: int| 0 <= i < before.len() && before[i] == at;
                assert(now[i] == at);
            } else {
                assert(now[now.len() - 1] == at);
            }
        }
    }
}

proof fn lemma_matches_in(text: Seq<Seq<char>>, query: Seq<char>, rows: int)
    requires
        text_fits(text),
        rows <= text.len(),
    ensures
        lists_matches(text, query, matches_in(text, query, rows), rows),
    decreases rows,
{
    if rows > 0 {
        lemma_matches_in(text, query, rows - 1);
        let y = (rows - 1) as usize;
        let row = text[rows - 1];
        lemma_row_matches(row, query, y, row.len() as int);
        let above = matches_in(text, query, rows - 1);
        let here = row_matches(row, query, y, row.len() as int);
        let found = matches_in(text, query, rows);
        assert(found == above + here);
        assert forall|i: int| 0 <= i < found.len() implies is_match(
            text,
            query,
            #[trigger] found[i],
        ) && found[i].y < rows by {
            if i < above.len() {
                assert(found[i] == above[i]);
            } else {
                assert(found[i] == here[i - above.len()]);
            }
        }
        assert forall|i: int, j: int| 0 <= i < j < found.len() implies precedes(
            #[trigger] found[i],
            #[trigger] found[j],
        ) by {
            if j < above.len() {
                assert(found[i] == above[i] && found[j] == above[j]);
            } else if i < above.len() {
                assert(found[i] == above[i] && found[j] == here[j - above.len()]);
            } else {
                assert(found[i] == here[i - above.len()] && found[j] == here[j - above.len()]);
            }
        }
        assert forall|at: Position| #[trigger]
            is_match(text, query, at) && at.y < rows implies found.contains(at) by {
            if at.y < rows - 1 {
                assert(above.contains(at));
                let i = choose|i: int| 0 <= i < above.len() && above[i] == at;
                assert(found[i] == at);
            } else {
                assert(at == Position { x: at.x, y });
                assert(here.contains(Position { x: at.x, y }));
                let i = choose|i: int| 0 <= i < here.len() && here[i] == at;
                assert(found[above.len() + i] == at);
            }
        }
    }
}

/// The index that follows `i` in a round of `len` items.
spec fn following(i: int, len: int) -> int {
    if i + 1 < len {
        i + 1
    } else {
        0
    }
}

proof fn lemma_forward_successor(
    text: Seq<Seq<char>>,
    query: Seq<char>,
    found: Seq<Position>,
    i: int,
)
    requires
        lists_matches(text, query, found, text.len() as int),
        0 <= i < found.len(),
    ensures
        next_match(text, query, found[i], SearchDirection::Forward) == Some(
            found[following(i, found.len() as int)],
        ),
{
    let from = found[i];
    let hit = found[following(i, found.len() as int)];
    let rows = text.len() as int;
    assert(is_match(text, query, from));
    assert(is_match(text, query, hit));
    assert forall|other: Position| #[trigger] is_match(text, query, other) implies reached_first(
        rows,
        from,
        SearchDirection::Forward,
        hit,
        other,
    ) by {
        assert(found.contains(other));
        let j = choose|j: int| 0 <= j < found.len() && found[j] == other;
        if j < i {
            assert(precedes(found[j], found[i]));
        }
        if i + 1 < found.len() {
            assert(precedes(found[i], found[i + 1]));
            if j > i + 1 {
                assert(precedes(found[i + 1], found[j]));
            }
        } else {
            if 0 < j {
                assert(precedes(found[0], found[j]));
            }
            if 0 < i {
                assert(precedes(found[0], found[i]));
            }
        }
    }
    lemma_next_match_is_unique(text, query, from, SearchDirection::Forward, hit);
}

/// The index `times` places behind `i` in a round of `len` items, for up
/// to one full round.
spec fn round_index(i: int, times: int, len: int) -> int {
    if i + times < len {
        i + times
    } else {
        i + times - len
    }
}

proof fn lemma_search_walks_round(
    text: Seq<Seq<char>>,
    query: Seq<char>,
    found: Seq<Position>,
    i: int,
    times: nat,
)
    requires
        lists_matches(text, query, found, text.len() as int),
        0 <= i < found.len(),
        times <= found.len(),
    ensures
        search_forward_times(text, query, found[i], times) == Some(
            found[round_index(i, times as int, found.len() as int)],
        ),
    decreases times,
{
    if times > 0 {
        lemma_search_walks_round(text, query, found, i, (times - 1) as nat);
        let at = round_index(i, times - 1, found.len() as int);
        lemma_forward_successor(text, query, found, at);
    }
}

/// The list of all matches is what its name says: every item of it is a
/// match, the items stand in document order, and every match is in it.
pub proof fn lemma_all_matches(text: Seq<Seq<char>>, query: Seq<char>)
    requires
        text_fits(text),
    ensures
        forall|i: int|
            0 <= i < all_matches(text, query).len() ==> is_match(
                text,
                query,
                #[trigger] all_matches(text, query)[i],
            ),
        forall|i: int, j: int|
            0 <= i < j < all_matches(text, query).len() ==> precedes(
                #[trigger] all_matches(text, query)[i],
                #[trigger] all_matches(text, query)[j],
            ),
        forall|at: Position| #[trigger]
            is_match(text, query, at) ==> all_matches(text, query).contains(at),
{
    lemma_matches_in(text, query, text.len() as int);
}

/// Forward search goes round the matches: from any match, as many forward
/// searches as the query has matches in the buffer, each started where the
/// one before has ended, lead back to that match.
pub proof fn lemma_forward_search_returns(text: Seq<Seq<char>>, query: Seq<char>, start: Position)
    requires
        text_fits(text),
        is_match(text, query, start),
    ensures
        search_forward_times(text, query, start, all_matches(text, query).len()) == Some(start),
{
    let found = all_matches(text, query);
    lemma_matches_in(text, query, text.len() as int);
    assert(found.contains(start));
    let i = choose|i: int| 0 <= i < found.len() && found[i] == start;
    lemma_search_walks_round(text, query, found, i, found.len());
}

impl Document {
    /// Forward search goes round the matches of a document: from any
    /// match, as many forward searches as the query has matches, each
    /// started where the one before has ended, lead back to that match.
    pub proof fn lemma_search_returns(&self, query: Seq<char>, start: Position)
        requires
            self.wf(),
            is_match(self@.text(), query, start),
        ensures
            search_forward_times(
                self@.text(),
                query,
                start,
                all_matches(self@.text(), query).len(),
            ) == Some(start),
    {
        self.lemma_text_fits();
        lemma_forward_search_returns(self@.text(), query, start);
    }
}

} // verus!
