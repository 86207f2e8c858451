//! The geometry of winning: which cells lie on a line through a move, and when such a
//! line is complete.

use crate::types::Cell;
use std::collections::BTreeSet;
use vstd::prelude::*;
use vstd::std_specs::cmp::OrdSpec;
use vstd::std_specs::iter::IteratorSpec;

verus! {

// ---------------------------------------------------------------------------
// Model
// ---------------------------------------------------------------------------

/// Whether the cell `(cx, cy)` lies on a win-check line of a move at `(x, y)`: row `y`,
/// column `x`, and each diagonal that the move lies on.
pub open spec fn on_win_line(x: u8, y: u8, cx: u8, cy: u8) -> bool {
    ||| cy == y && cx < 3
    ||| cx == x && cy < 3
    ||| x == y && cx == cy && cx < 3
    ||| x + y == 2 && cx + cy == 2
}

/// Coordinates are listed column by column, each column from the top.
pub open spec fn precedes(a: (u8, u8), b: (u8, u8)) -> bool {
    a.0 < b.0 || (a.0 == b.0 && a.1 < b.1)
}

/// How many cells lie on the win-check lines of a move on the board: nine for the
/// center, seven for a corner, five for an edge.
pub open spec fn witness_size(x: u8, y: u8) -> nat {
    if x == 1 && y == 1 {
        9
    } else if x != 1 && y != 1 {
        7
    } else {
        5
    }
}

/// Whether `mark` fills a win-check line of the move at `(x, y)`, where `get` gives the
/// cell at a coordinate.
pub open spec fn wins_through(x: u8, y: u8, mark: Cell, get: spec_fn(u8, u8) -> Cell) -> bool {
    ||| get(0, y) == mark && get(1, y) == mark && get(2, y) == mark
    ||| get(x, 0) == mark && get(x, 1) == mark && get(x, 2) == mark
    ||| x == y && get(0, 0) == mark && get(1, 1) == mark && get(2, 2) == mark
    ||| x + y == 2 && get(0, 2) == mark && get(1, 1) == mark && get(2, 0) == mark
}

/// Whether `mark` fills one of the eight lines of a board, given by its cells in the
/// order `y * 3 + x`.
pub open spec fn has_line(cells: Seq<Cell>, mark: Cell) -> bool {
    ||| cells[0] == mark && cells[1] == mark && cells[2] == mark
    ||| cells[3] == mark && cells[4] == mark && cells[5] == mark
    ||| cells[6] == mark && cells[7] == mark && cells[8] == mark
    ||| cells[0] == mark && cells[3] == mark && cells[6] == mark
    ||| cells[1] == mark && cells[4] == mark && cells[7] == mark
    ||| cells[2] == mark && cells[5] == mark && cells[8] == mark
    ||| cells[0] == mark && cells[4] == mark && cells[8] == mark
    ||| cells[2] == mark && cells[4] == mark && cells[6] == mark
}

/// The function that reads the cells of a board by coordinate.
pub open spec fn cell_reader(cells: Seq<Cell>) -> spec_fn(u8, u8) -> Cell {
    |x: u8, y: u8| cells[y * 3 + x]
}

/// Whether the executable function `get` computes `model`.
pub open spec fn computes<F: Fn(u8, u8) -> Cell>(get: F, model: spec_fn(u8, u8) -> Cell) -> bool {
    forall|x: u8, y: u8, cell: Cell|
        #[trigger] call_ensures(get, (x, y), cell) ==> cell == model(x, y)
}

/// Whether `get` may give `mark` at each of three coordinates.
pub open spec fn line_filled<F: Fn(u8, u8) -> Cell>(
    get: F,
    a: (u8, u8),
    b: (u8, u8),
    c: (u8, u8),
    mark: Cell,
) -> bool {
    call_ensures(get, a, mark) && call_ensures(get, b, mark) && call_ensures(get, c, mark)
}

/// Whether `get` may give something other than `mark` at a coordinate.
pub open spec fn gives_another<F: Fn(u8, u8) -> Cell>(get: F, at: (u8, u8), mark: Cell) -> bool {
    exists|cell: Cell| cell != mark && #[trigger] call_ensures(get, at, cell)
}

/// Whether `get` may give something other than `mark` at one of three coordinates.
pub open spec fn line_broken<F: Fn(u8, u8) -> Cell>(
    get: F,
    a: (u8, u8),
    b: (u8, u8),
    c: (u8, u8),
    mark: Cell,
) -> bool {
    gives_another(get, a, mark) || gives_another(get, b, mark) || gives_another(get, c, mark)
}

// ---------------------------------------------------------------------------
// Win-check helpers
// ---------------------------------------------------------------------------

/// Returns the deduplicated set of board cells whose Merkle proofs are required
/// to verify all win-check lines through the cell at `(x, y)`, in ascending order.
///
/// Only lines that pass through the played cell can be completed by this move,
/// so only those lines are listed, and nothing else.
pub fn required_cells(x: u8, y: u8) -> (cells: Vec<(u8, u8)>)
    requires
        x + y <= u8::MAX,
    ensures
        forall|cx: u8, cy: u8| #[trigger]
            cells@.contains((cx, cy)) <==> on_win_line(x, y, cx, cy),
        forall|i: int, j: int| 0 <= i < j < cells@.len() ==> precedes(cells@[i], cells@[j]),
        x < 3 && y < 3 ==> cells@.len() == witness_size(x, y),
{
    broadcast use vstd::laws_cmp::group_laws_cmp;

    let mut set: BTreeSet<(u8, u8)> = BTreeSet::new();
    // Row y
    set.insert((0, y));
    set.insert((1, y));
    set.insert((2, y));
    // Column x
    set.insert((x, 0));
    set.insert((x, 1));
    set.insert((x, 2));
    // Main diagonal (top-left to bottom-right)
    if x == y {
        set.insert((0, 0));
        set.insert((1, 1));
        set.insert((2, 2));
    }
    // Anti-diagonal (top-right to bottom-left)
    if x + y == 2 {
        set.insert((0, 2));
        set.insert((1, 1));
        set.insert((2, 0));
    }
    assert(forall|cx: u8, cy: u8| #[trigger]
        set@.contains((cx, cy)) <==> on_win_line(x, y, cx, cy));
    assert(x < 3 && y < 3 ==> set@.len() == witness_size(x, y)) by {
        assert(x < 3 ==> x == 0 || x == 1 || x == 2);
        assert(y < 3 ==> y == 0 || y == 1 || y == 2);
    }
    let ghost order = vstd::std_specs::btree::spec_btree_keys_iter(&set).remaining();
    let mut cells: Vec<(u8, u8)> = Vec::new();
    for c in it: set.iter()
        invariant
            it.seq() == order,
            cells@ == order.unref().take(it.index()),
    {
        cells.push(*c);
    }
    proof {
        assert(cells@ =~= order.unref());
        assert forall|cx: u8, cy: u8| #[trigger]
            cells@.contains((cx, cy)) <==> on_win_line(x, y, cx, cy) by {
            assert(cells@.to_set().contains((cx, cy)) <==> cells@.contains((cx, cy)));
            assert(set@.contains((cx, cy)) <==> on_win_line(x, y, cx, cy));
        }
        assert forall|i: int, j: int|
            0 <= i < j < cells@.len() implies precedes(cells@[i], cells@[j]) by {
            assert(vstd::std_specs::btree::increasing_seq(order));
            assert(vstd::laws_cmp::obeys_cmp::<&(u8, u8)>());
            assert(OrdSpec::cmp_spec(&order[i], &order[j]) is Less);
        }
    }
    cells
}

/// Check whether `mark` has won on any line through `(px, py)`.
/// `get` returns the cell value at a coordinate (using the post-move board). It may be any
/// function, also one that answers differently from call to call; where it computes a
/// model, so does the win check.
pub fn has_won<F: Fn(u8, u8) -> Cell>(px: u8, py: u8, mark: Cell, get: F) -> (won: bool)
    requires
        px + py <= u8::MAX,
        forall|x: u8, y: u8| #[trigger]
            on_win_line(px, py, x, y) ==> call_requires(get, (x, y)),
    ensures
        won ==> {
            ||| line_filled(get, (0, py), (1, py), (2, py), mark)
            ||| line_filled(get, (px, 0), (px, 1), (px, 2), mark)
            ||| px == py && line_filled(get, (0, 0), (1, 1), (2, 2), mark)
            ||| px + py == 2 && line_filled(get, (0, 2), (1, 1), (2, 0), mark)
        },
        !won ==> {
            &&& line_broken(get, (0, py), (1, py), (2, py), mark)
            &&& line_broken(get, (px, 0), (px, 1), (px, 2), mark)
            &&& px == py ==> line_broken(get, (0, 0), (1, 1), (2, 2), mark)
            &&& px + py == 2 ==> line_broken(get, (0, 2), (1, 1), (2, 0), mark)
        },
        forall|model: spec_fn(u8, u8) -> Cell| #[trigger]
            computes(get, model) ==> won == wins_through(px, py, mark, model),
{
    assert(on_win_line(px, py, 0, py) && on_win_line(px, py, 1, py) && on_win_line(px, py, 2, py));
    // Row
    if get(0, py) == mark && get(1, py) == mark && get(2, py) == mark {
        return true;
    }
    assert(on_win_line(px, py, px, 0) && on_win_line(px, py, px, 1) && on_win_line(px, py, px, 2));
    // Column
    if get(px, 0) == mark && get(px, 1) == mark && get(px, 2) == mark {
        return true;
    }
    assert(px == py ==> on_win_line(px, py, 0, 0) && on_win_line(px, py, 1, 1)
        && on_win_line(px, py, 2, 2));
    // Main diagonal
    if px == py && get(0, 0) == mark && get(1, 1) == mark && get(2, 2) == mark {
        return true;
    }
    assert(px + py == 2 ==> on_win_line(px, py, 0, 2) && on_win_line(px, py, 1, 1)
        && on_win_line(px, py, 2, 0));
    // Anti-diagonal
    if px + py == 2 && get(0, 2) == mark && get(1, 1) == mark && get(2, 0) == mark {
        return true;
    }
    false
}

// ---------------------------------------------------------------------------
// Laws
// ---------------------------------------------------------------------------

/// Only lines through the played cell can be completed by a move: on a board where
/// `mark` has no line, placing it at `(x, y)` gives it one exactly if it then fills a
/// win-check line of `(x, y)`.
pub proof fn only_lines_through_the_move(cells: Seq<Cell>, x: u8, y: u8, mark: Cell)
    requires
        cells.len() == 9,
        x < 3,
        y < 3,
        !has_line(cells, mark),
    ensures
        has_line(cells.update(y * 3 + x, mark), mark) == wins_through(
            x,
            y,
            mark,
            cell_reader(cells.update(y * 3 + x, mark)),
        ),
{
    assert(x == 0 || x == 1 || x == 2);
    assert(y == 0 || y == 1 || y == 2);
}

/// A mark placed on an empty cell neither completes nor breaks a line of the other mark.
pub proof fn a_move_keeps_the_other_lines(cells: Seq<Cell>, index: int, mark: Cell, other: Cell)
    requires
        cells.len() == 9,
        0 <= index < 9,
        cells[index] == Cell::Empty,
        other != Cell::Empty,
        other != mark,
    ensures
        has_line(cells.update(index, mark), other) == has_line(cells, other),
{
}

/// The win-check lines of a move on the board stay on the board and run through the
/// played cell.
pub proof fn win_lines_cover_the_move(x: u8, y: u8)
    requires
        x < 3,
        y < 3,
    ensures
        on_win_line(x, y, x, y),
        forall|cx: u8, cy: u8| #[trigger] on_win_line(x, y, cx, cy) ==> cx < 3 && cy < 3,
{
}

/// Whether a move wins is settled by its required cells alone.
pub proof fn winning_reads_required_cells(
    x: u8,
    y: u8,
    mark: Cell,
    get_a: spec_fn(u8, u8) -> Cell,
    get_b: spec_fn(u8, u8) -> Cell,
)
    requires
        forall|cx: u8, cy: u8| #[trigger]
            on_win_line(x, y, cx, cy) ==> get_a(cx, cy) == get_b(cx, cy),
    ensures
        wins_through(x, y, mark, get_a) == wins_through(x, y, mark, get_b),
{
    assert(on_win_line(x, y, 0, y) && on_win_line(x, y, 1, y) && on_win_line(x, y, 2, y));
    assert(on_win_line(x, y, x, 0) && on_win_line(x, y, x, 1) && on_win_line(x, y, x, 2));
    assert(x == y ==> on_win_line(x, y, 0, 0) && on_win_line(x, y, 1, 1) && on_win_line(x, y, 2, 2));
    assert(x + y == 2 ==> on_win_line(x, y, 0, 2) && on_win_line(x, y, 1, 1) && on_win_line(
        x,
        y,
        2,
        0,
    ));
}

/// A line is three cells in a straight row: `mark` has a line exactly if it is held by
/// three different cells of the board, one of them halfway between the two others.
pub proof fn lines_are_straight(cells: Seq<Cell>, mark: Cell)
    requires
        cells.len() == 9,
    ensures
        has_line(cells, mark) <==> exists|i: int, j: int, k: int|
            0 <= i < j < k < 9 && i / 3 + k / 3 == 2 * (j / 3) && i % 3 + k % 3 == 2 * (j % 3)
                && #[trigger] cells[i] == mark && #[trigger] cells[j] == mark
                && #[trigger] cells[k] == mark,
{
    assert forall|i: int, j: int, k: int|
        0 <= i < j < k < 9 && i / 3 + k / 3 == 2 * (j / 3) && i % 3 + k % 3 == 2 * (j % 3)
            && #[trigger] cells[i] == mark && #[trigger] cells[j] == mark
            && #[trigger] cells[k] == mark implies has_line(cells, mark) by {
        assert(i == 0 || i == 1 || i == 2 || i == 3 || i == 4 || i == 5 || i == 6);
        assert(k == 2 || k == 3 || k == 4 || k == 5 || k == 6 || k == 7 || k == 8);
    }
}

/// A move at `(x, y)` wins exactly if its whole row, its whole column, or a whole diagonal
/// that it lies on holds the mark.
pub proof fn a_win_fills_a_whole_line(x: u8, y: u8, mark: Cell, get: spec_fn(u8, u8) -> Cell)
    ensures
        wins_through(x, y, mark, get) <==> {
            ||| forall|i: u8| i < 3 ==> #[trigger] get(i, y) == mark
            ||| forall|i: u8| i < 3 ==> #[trigger] get(x, i) == mark
            ||| x == y && forall|i: u8| i < 3 ==> #[trigger] get(i, i) == mark
            ||| x + y == 2 && forall|i: u8, j: u8| i + j == 2 ==> #[trigger] get(i, j) == mark
        },
{
    assert(forall|i: u8| #![trigger get(i, y)] i < 3 ==> i == 0 || i == 1 || i == 2);
    assert(forall|i: u8| #![trigger get(x, i)] i < 3 ==> i == 0 || i == 1 || i == 2);
    assert(forall|i: u8| #![trigger get(i, i)] i < 3 ==> i == 0 || i == 1 || i == 2);
    assert(forall|i: u8, j: u8|
        #![trigger get(i, j)]
        i + j == 2 ==> (i == 0 && j == 2) || (i == 1 && j == 1) || (i == 2 && j == 0));
}

/// The required cells of a move are the cells of the row, the column and the diagonals that
/// it lies on. On the board this is mutual, and their number is nine for the center, seven
/// for a corner and five for an edge.
pub proof fn required_cells_share_a_line(x: u8, y: u8, cx: u8, cy: u8)
    ensures
        cx > 2 || cy > 2 ==> (on_win_line(x, y, cx, cy) <==> (cx < 3 && cy == y) || (cy < 3 && cx
            == x)),
        cx < 3 && cy < 3 ==> (on_win_line(x, y, cx, cy) <==> cx == x || cy == y || (x == y && cx
            == cy) || (x + y == 2 && cx + cy == 2)),
        x < 3 && y < 3 && cx < 3 && cy < 3 ==> on_win_line(x, y, cx, cy) == on_win_line(
            cx,
            cy,
            x,
            y,
        ),
        x == 1 && y == 1 ==> witness_size(x, y) == 9,
        (x == 0 || x == 2) && (y == 0 || y == 2) ==> witness_size(x, y) == 7,
        x < 3 && y < 3 && (x + y == 1 || x + y == 3) ==> witness_size(x, y) == 5,
{
}

/// Coordinates are ordered by column and then by row.
pub proof fn coordinates_are_ordered(a: (u8, u8), b: (u8, u8))
    ensures
        precedes(a, b) <==> a.0 * 256 + a.1 < b.0 * 256 + b.1,
{
}

/// What reading a line through a function means.
pub proof fn reading_a_line<F: Fn(u8, u8) -> Cell>(
    get: F,
    model: spec_fn(u8, u8) -> Cell,
    a: (u8, u8),
    b: (u8, u8),
    c: (u8, u8),
    mark: Cell,
)
    ensures
        line_filled(get, a, b, c, mark) <==> call_ensures(get, a, mark) && call_ensures(
            get,
            b,
            mark,
        ) && call_ensures(get, c, mark),
        line_broken(get, a, b, c, mark) <==> {
            ||| exists|cell: Cell| cell != mark && #[trigger] call_ensures(get, a, cell)
            ||| exists|cell: Cell| cell != mark && #[trigger] call_ensures(get, b, cell)
            ||| exists|cell: Cell| cell != mark && #[trigger] call_ensures(get, c, cell)
        },
        computes(get, model) <==> forall|x: u8, y: u8, cell: Cell| #[trigger]
            call_ensures(get, (x, y), cell) ==> cell == model(x, y),
{
}

/// The cell of a board at a coordinate stands at position `3 * y + x`.
pub proof fn cells_are_read_by_coordinate(cells: Seq<Cell>, x: u8, y: u8)
    ensures
        cell_reader(cells)(x, y) == cells[3 * y + x],
{
}

} // verus!
