//! Properties of the board that relate several operations, stated over the
//! model and proved once for every board.

use crate::model::{
    lemma_flat_index, lemma_position, lemma_wrap, wrap_next, wrap_prev, Board,
};
use crate::universe::Cell;
use vstd::prelude::*;

verus! {

/// The rule of the game, case by case: a live cell dies with fewer than two
/// or more than three live neighbours and lives on with two or three; a dead
/// cell comes alive with exactly three and stays dead otherwise.
pub proof fn lemma_rule_cases(cell: Cell, live_neighbors: nat)
    ensures
        cell == Cell::Alive && live_neighbors < 2 ==> cell.next_state(live_neighbors)
            == Cell::Dead,
        cell == Cell::Alive && (live_neighbors == 2 || live_neighbors == 3) ==> cell.next_state(
            live_neighbors,
        ) == Cell::Alive,
        cell == Cell::Alive && live_neighbors > 3 ==> cell.next_state(live_neighbors)
            == Cell::Dead,
        cell == Cell::Dead && live_neighbors == 3 ==> cell.next_state(live_neighbors)
            == Cell::Alive,
        cell == Cell::Dead && live_neighbors != 3 ==> cell.next_state(live_neighbors)
            == Cell::Dead,
{
}

/// Flipping a cell twice gives the cell back, and flipping it once never
/// does.
pub proof fn lemma_flip_twice(cell: Cell)
    ensures
        cell.flipped().flipped() == cell,
        cell.flipped() != cell,
{
}

/// A live-neighbour count is at most eight.
pub proof fn lemma_live_neighbors_bound(board: Board, row: int, col: int)
    ensures
        board.live_neighbors(row, col) <= 8,
{
}

/// One generation later the cell at every position is what the rule gives
/// for the cell and the neighbours that the position had before the step: no
/// cell sees a neighbour that the step has already replaced.
pub proof fn lemma_step_reads_snapshot(board: Board, row: int, col: int)
    requires
        board.wf(),
        board.in_bounds(row, col),
    ensures
        board.next_generation().at(row, col) == board.at(row, col).next_state(
            board.live_neighbors(row, col),
        ),
{
    lemma_flat_index(board.width as int, board.height as int, row, col);
}

/// A board that its own next generation equals stays as it is through any
/// number of generations.
pub proof fn lemma_still_life(board: Board, n: nat)
    requires
        board.next_generation() == board,
    ensures
        board.after(n) == board,
    decreases n,
{
    if n > 0 {
        lemma_still_life(board, (n - 1) as nat);
    }
}

/// A board that comes back after two generations comes back after every even
/// number of generations.
pub proof fn lemma_period_two(board: Board, n: nat)
    requires
        board.next_generation().next_generation() == board,
    ensures
        board.after(2 * n) == board,
    decreases n,
{
    if n > 0 {
        lemma_period_two(board, (n - 1) as nat);
        assert(board.after(2 * n) == board.next_generation().after((2 * n - 1) as nat));
        assert(board.next_generation().after((2 * n - 1) as nat)
            == board.next_generation().next_generation().after((2 * n - 2) as nat));
    }
}

/// On a board whose only live cell stands at (`row`, `col`), a position
/// holds a live cell exactly if it is that one.
pub proof fn lemma_lone_cell_found(board: Board, row: int, col: int, r: int, c: int)
    requires
        board.wf(),
        board.in_bounds(row, col),
        board.in_bounds(r, c),
        board.lone_cell(row, col),
    ensures
        board.alive_at(r, c) == if r == row && c == col { 1nat } else { 0nat },
{
    lemma_flat_index(board.width as int, board.height as int, row, col);
    lemma_flat_index(board.width as int, board.height as int, r, c);
}

/// Going round the edges: on a board of at least three rows and three
/// columns whose only live cell stands at (`row`, `col`), each of the eight
/// positions around that cell counts exactly one live neighbour, also where
/// the way to the cell leads across an edge, and the cell itself counts none.
pub proof fn lemma_lone_cell_counted_once(board: Board, row: int, col: int)
    requires
        board.wf(),
        board.in_bounds(row, col),
        board.width >= 3,
        board.height >= 3,
        board.lone_cell(row, col),
    ensures
        board.live_neighbors(row, col) == 0,
        ({
            let above = wrap_prev(row, board.height as int);
            let below = wrap_next(row, board.height as int);
            let left = wrap_prev(col, board.width as int);
            let right = wrap_next(col, board.width as int);
            &&& board.live_neighbors(above, left) == 1
            &&& board.live_neighbors(above, col) == 1
            &&& board.live_neighbors(above, right) == 1
            &&& board.live_neighbors(row, left) == 1
            &&& board.live_neighbors(row, right) == 1
            &&& board.live_neighbors(below, left) == 1
            &&& board.live_neighbors(below, col) == 1
            &&& board.live_neighbors(below, right) == 1
        }),
{
    let h = board.height as int;
    let w = board.width as int;
    lemma_wrap(row, h);
    lemma_wrap(col, w);
    lemma_wrap(wrap_prev(row, h), h);
    lemma_wrap(wrap_next(row, h), h);
    lemma_wrap(wrap_prev(col, w), w);
    lemma_wrap(wrap_next(col, w), w);
    assert forall|r: int, c: int| board.in_bounds(r, c) implies #[trigger] board.alive_at(r, c)
        == if r == row && c == col { 1nat } else { 0nat } by {
        lemma_lone_cell_found(board, row, col, r, c);
    }
}

/// Around a two-by-two block every live cell has three live neighbours and
/// no dead cell has three, so the rule leaves each cell as it is.
proof fn lemma_block_cell(board: Board, row: int, col: int, r: int, c: int)
    requires
        board.wf(),
        board.width >= 3,
        board.height >= 3,
        board.in_bounds(row, col),
        board.in_bounds(r, c),
        board.block(row, col),
    ensures
        board.at(r, c).next_state(board.live_neighbors(r, c)) == board.at(r, c),
{
    let h = board.height as int;
    let w = board.width as int;
    lemma_wrap(row, h);
    lemma_wrap(col, w);
    lemma_wrap(r, h);
    lemma_wrap(c, w);
}

/// The block is a still life: on a board of at least three rows and three
/// columns whose live cells are exactly a two-by-two block, wherever it
/// stands, the board is the same after any number of generations.
pub proof fn lemma_block_is_stable(board: Board, row: int, col: int, n: nat)
    requires
        board.wf(),
        board.width >= 3,
        board.height >= 3,
        board.in_bounds(row, col),
        board.block(row, col),
    ensures
        board.next_generation() == board,
        board.after(n) == board,
{
    let h = board.height as int;
    let w = board.width as int;
    assert forall|i: int| 0 <= i < board.cells.len() implies board.next_cell(i)
        == board.cells[i] by {
        lemma_position(w, h, i);
        lemma_block_cell(board, row, col, i / w, i % w);
    }
    assert(board.next_generation().cells =~= board.cells);
    lemma_still_life(board, n);
}

/// Round three live cells in a row, the rule makes alive exactly the cell in
/// the middle and the cells above and below it.
proof fn lemma_row_blinker_cell(board: Board, row: int, col: int, r: int, c: int)
    requires
        board.wf(),
        board.width >= 4,
        board.height >= 4,
        board.in_bounds(row, col),
        board.in_bounds(r, c),
        board.row_blinker(row, col),
    ensures
        board.at(r, c).next_state(board.live_neighbors(r, c)) == Cell::Alive <==> c == col && (r
            == wrap_prev(row, board.height as int) || r == row || r == wrap_next(
            row,
            board.height as int,
        )),
{
    let h = board.height as int;
    let w = board.width as int;
    lemma_wrap(row, h);
    lemma_wrap(col, w);
    lemma_wrap(r, h);
    lemma_wrap(c, w);
}

/// Round three live cells in a column, the rule makes alive exactly the cell
/// in the middle and the cells to its left and right.
proof fn lemma_column_blinker_cell(board: Board, row: int, col: int, r: int, c: int)
    requires
        board.wf(),
        board.width >= 4,
        board.height >= 4,
        board.in_bounds(row, col),
        board.in_bounds(r, c),
        board.column_blinker(row, col),
    ensures
        board.at(r, c).next_state(board.live_neighbors(r, c)) == Cell::Alive <==> r == row && (c
            == wrap_prev(col, board.width as int) || c == col || c == wrap_next(
            col,
            board.width as int,
        )),
{
    let h = board.height as int;
    let w = board.width as int;
    lemma_wrap(row, h);
    lemma_wrap(col, w);
    lemma_wrap(r, h);
    lemma_wrap(c, w);
}

/// Two boards of one size with the same cell at every position are equal.
proof fn lemma_same_cells(a: Board, b: Board)
    requires
        a.wf(),
        b.wf(),
        a.width == b.width,
        a.height == b.height,
        forall|r: int, c: int| a.in_bounds(r, c) ==> #[trigger] a.at(r, c) == b.at(r, c),
    ensures
        a == b,
{
    assert forall|i: int| 0 <= i < a.cells.len() implies a.cells[i] == b.cells[i] by {
        lemma_position(a.width as int, a.height as int, i);
        let r = i / (a.width as int);
        let c = i % (a.width as int);
        assert(a.at(r, c) == b.at(r, c));
    }
    assert(a.cells =~= b.cells);
}

/// The blinker oscillates: on a board of at least four rows and four columns
/// whose live cells are exactly three in a row, wherever they stand, the
/// next generation holds exactly three in a column through the same centre
/// and differs from the board, and the generation after that is the board
/// again, as is every even generation.
pub proof fn lemma_blinker_oscillates(board: Board, row: int, col: int, n: nat)
    requires
        board.wf(),
        board.width >= 4,
        board.height >= 4,
        board.in_bounds(row, col),
        board.row_blinker(row, col),
    ensures
        board.next_generation().column_blinker(row, col),
        board.next_generation() != board,
        board.next_generation().next_generation() == board,
        board.after(2 * n) == board,
{
    let h = board.height as int;
    let w = board.width as int;
    let turned = board.next_generation();
    assert forall|r: int, c: int| turned.in_bounds(r, c) implies (#[trigger] turned.at(r, c)
        == Cell::Alive <==> c == col && (r == wrap_prev(row, h) || r == row || r == wrap_next(
        row,
        h,
    ))) by {
        lemma_step_reads_snapshot(board, r, c);
        lemma_row_blinker_cell(board, row, col, r, c);
    }
    let back = turned.next_generation();
    assert forall|r: int, c: int| back.in_bounds(r, c) implies #[trigger] back.at(r, c)
        == board.at(r, c) by {
        lemma_step_reads_snapshot(turned, r, c);
        lemma_column_blinker_cell(turned, row, col, r, c);
    }
    lemma_same_cells(back, board);
    lemma_wrap(row, h);
    lemma_wrap(col, w);
    assert(turned.at(wrap_prev(row, h), col) == Cell::Alive);
    assert(board.at(wrap_prev(row, h), col) != Cell::Alive);
    lemma_period_two(board, n);
}

/// Flipping the same cell twice restores the board.
pub proof fn lemma_toggle_twice(board: Board, row: int, col: int)
    requires
        board.wf(),
        board.in_bounds(row, col),
    ensures
        board.toggled(row, col).toggled(row, col) == board,
{
    lemma_flat_index(board.width as int, board.height as int, row, col);
    assert(board.toggled(row, col).toggled(row, col).cells =~= board.cells);
}

/// Flipping a cell changes that cell and no other.
pub proof fn lemma_toggle_one_cell(board: Board, row: int, col: int)
    requires
        board.wf(),
        board.in_bounds(row, col),
    ensures
        board.toggled(row, col).at(row, col) == board.at(row, col).flipped(),
        forall|i: int|
            0 <= i < board.cells.len() && i != board.index(row, col) ==> board.toggled(
                row,
                col,
            ).cells[i] == board.cells[i],
{
    lemma_flat_index(board.width as int, board.height as int, row, col);
}

/// A board without rows or without columns holds no cell, and neither does
/// its next generation.
pub proof fn lemma_empty_board(board: Board)
    requires
        board.wf(),
        board.width == 0 || board.height == 0,
    ensures
        board.cells.len() == 0,
        board.next_generation() == board,
{
    assert(board.width * board.height == 0) by (nonlinear_arith)
        requires
            board.width == 0 || board.height == 0,
    ;
    assert(board.next_generation().cells =~= board.cells);
}

/// Every operation on a board keeps one cell per position: the buffer's
/// length stays the product of the dimensions.
pub proof fn lemma_size_kept(board: Board, row: int, col: int, coords: Seq<(u32, u32)>)
    requires
        board.wf(),
    ensures
        board.next_generation().wf(),
        board.in_bounds(row, col) ==> board.toggled(row, col).wf(),
        board.revived(coords).wf(),
        board.bytes().len() == board.width * board.height,
{
    if board.in_bounds(row, col) {
        lemma_flat_index(board.width as int, board.height as int, row, col);
    }
}

/// A new board, seeded or cleared, holds one cell per position.
pub proof fn lemma_size_made(width: nat, height: nat)
    ensures
        Board::seeded(width, height).wf(),
        Board::cleared(width, height).wf(),
{
}

/// The rendering has one character per cell and one line feed per row.
pub proof fn lemma_rendered_length(board: Board)
    ensures
        board.rendered().len() == board.height * (board.width + 1),
{
}

} // verus!
