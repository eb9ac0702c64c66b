//! The mathematical model of a board: dimensions and a row-major sequence of
//! cells, with the toroidal neighbourhood and the generation step defined on
//! it.

use crate::universe::Cell;
use vstd::arithmetic::div_mod::{
    lemma_fundamental_div_mod, lemma_fundamental_div_mod_converse, lemma_mod_bound,
};
use vstd::prelude::*;

verus! {

/// Glyph that stands for a dead cell in the textual rendering.
pub const DEAD_GLYPH: char = '\u{25FB}';

/// Glyph that stands for a live cell in the textual rendering.
pub const ALIVE_GLYPH: char = '\u{25FC}';

/// The row or column before `i` on a ring of `n` positions.
pub open spec fn wrap_prev(i: int, n: int) -> int {
    (i - 1 + n) % n
}

/// The row or column after `i` on a ring of `n` positions.
pub open spec fn wrap_next(i: int, n: int) -> int {
    (i + 1) % n
}

/// A board as a mathematical value.
pub struct Board {
    pub width: nat,
    pub height: nat,
    pub cells: Seq<Cell>,
}

impl Board {
    /// The buffer holds exactly one cell per position.
    pub open spec fn wf(self) -> bool {
        self.cells.len() == self.width * self.height
    }

    /// `row` and `col` name a position of the board.
    pub open spec fn in_bounds(self, row: int, col: int) -> bool {
        0 <= row < self.height && 0 <= col < self.width
    }

    /// Row-major flat index of a position.
    pub open spec fn index(self, row: int, col: int) -> int {
        row * self.width + col
    }

    /// The cell at a position.
    pub open spec fn at(self, row: int, col: int) -> Cell {
        self.cells[self.index(row, col)]
    }

    /// 1 if the cell at the position is alive, else 0.
    pub open spec fn alive_at(self, row: int, col: int) -> nat {
        self.at(row, col).population()
    }

    /// Number of live cells among the eight neighbours of a position, the
    /// edges of the board being joined to the opposite edges. On a board with
    /// a single row or column the same cell is counted once per path that
    /// reaches it.
    pub open spec fn live_neighbors(self, row: int, col: int) -> nat {
        let above = wrap_prev(row, self.height as int);
        let below = wrap_next(row, self.height as int);
        let left = wrap_prev(col, self.width as int);
        let right = wrap_next(col, self.width as int);
        self.alive_at(above, left) + self.alive_at(above, col) + self.alive_at(above, right)
            + self.alive_at(row, left) + self.alive_at(row, right)
            + self.alive_at(below, left) + self.alive_at(below, col) + self.alive_at(below, right)
    }

    /// The cell that stands at flat index `i` one generation later.
    pub open spec fn next_cell(self, i: int) -> Cell {
        let row = i / (self.width as int);
        let col = i % (self.width as int);
        self.cells[i].next_state(self.live_neighbors(row, col))
    }

    /// The board one generation later: every cell is decided from the
    /// neighbours it has on this board.
    pub open spec fn next_generation(self) -> Board {
        Board {
            width: self.width,
            height: self.height,
            cells: Seq::new(self.cells.len(), |i: int| self.next_cell(i)),
        }
    }

    /// The board `n` generations later.
    pub open spec fn after(self, n: nat) -> Board
        decreases n,
    {
        if n == 0 {
            self
        } else {
            self.next_generation().after((n - 1) as nat)
        }
    }

    /// The cell at (`row`, `col`) is alive and every other cell is dead.
    pub open spec fn lone_cell(self, row: int, col: int) -> bool {
        forall|i: int|
            0 <= i < self.cells.len() ==> (#[trigger] self.cells[i] == Cell::Alive <==> i
                == self.index(row, col))
    }

    /// The live cells are exactly the two-by-two block whose upper left
    /// corner is (`row`, `col`), going round the edges.
    pub open spec fn block(self, row: int, col: int) -> bool {
        let below = wrap_next(row, self.height as int);
        let right = wrap_next(col, self.width as int);
        forall|r: int, c: int|
            self.in_bounds(r, c) ==> (#[trigger] self.at(r, c) == Cell::Alive <==> (r == row || r
                == below) && (c == col || c == right))
    }

    /// The live cells are exactly three in a row: (`row`, `col`) and the
    /// cells to its left and right, going round the edges.
    pub open spec fn row_blinker(self, row: int, col: int) -> bool {
        let left = wrap_prev(col, self.width as int);
        let right = wrap_next(col, self.width as int);
        forall|r: int, c: int|
            self.in_bounds(r, c) ==> (#[trigger] self.at(r, c) == Cell::Alive <==> r == row && (c
                == left || c == col || c == right))
    }

    /// The live cells are exactly three in a column: (`row`, `col`) and the
    /// cells above and below it, going round the edges.
    pub open spec fn column_blinker(self, row: int, col: int) -> bool {
        let above = wrap_prev(row, self.height as int);
        let below = wrap_next(row, self.height as int);
        forall|r: int, c: int|
            self.in_bounds(r, c) ==> (#[trigger] self.at(r, c) == Cell::Alive <==> c == col && (r
                == above || r == row || r == below))
    }

    /// The board with the cell at one position flipped.
    pub open spec fn toggled(self, row: int, col: int) -> Board {
        Board {
            width: self.width,
            height: self.height,
            cells: self.cells.update(self.index(row, col), self.at(row, col).flipped()),
        }
    }

    /// Some pair among the first `n` of `coords` names the flat index `i`.
    pub open spec fn names(self, coords: Seq<(u32, u32)>, n: int, i: int) -> bool {
        exists|k: int| 0 <= k < n && #[trigger] self.index(coords[k].0 as int, coords[k].1 as int) == i
    }

    /// The board with every position listed in `coords` alive and the others
    /// as they were.
    pub open spec fn revived(self, coords: Seq<(u32, u32)>) -> Board {
        Board {
            width: self.width,
            height: self.height,
            cells: Seq::new(
                self.cells.len(),
                |i: int| if self.names(coords, coords.len() as int, i) {
                    Cell::Alive
                } else {
                    self.cells[i]
                },
            ),
        }
    }

    /// The board of the given size with every cell dead.
    pub open spec fn cleared(width: nat, height: nat) -> Board {
        Board { width, height, cells: Seq::new(width * height, |i: int| Cell::Dead) }
    }

    /// The board of the given size in the fixed starting pattern: the cell at
    /// flat index `i` is alive when `i` is a multiple of 2 or of 7.
    pub open spec fn seeded(width: nat, height: nat) -> Board {
        Board {
            width,
            height,
            cells: Seq::new(
                width * height,
                |i: int| if i % 2 == 0 || i % 7 == 0 {
                    Cell::Alive
                } else {
                    Cell::Dead
                },
            ),
        }
    }

    /// The cell bytes in row-major order: 0 for a dead cell, 1 for a live one.
    pub open spec fn bytes(self) -> Seq<u8> {
        Seq::new(self.cells.len(), |i: int| self.cells[i].byte())
    }

    /// Character `k` of the rendering: each row is `width` glyphs and a line
    /// feed.
    pub open spec fn rendered_char(self, k: int) -> char {
        let line = self.width as int + 1;
        if k % line == self.width as int {
            '\n'
        } else {
            self.at(k / line, k % line).glyph()
        }
    }

    /// The textual rendering: one line per row, each closed by a line feed.
    pub open spec fn rendered(self) -> Seq<char> {
        Seq::new(self.height * (self.width + 1), |k: int| self.rendered_char(k))
    }
}

/// On a ring of `n` positions the neighbours of `i` are `i - 1` and `i + 1`,
/// but for the first position, whose predecessor is the last, and the last,
/// whose successor is the first.
pub proof fn lemma_wrap(i: int, n: int)
    requires
        0 <= i < n,
    ensures
        wrap_prev(i, n) == if i == 0 { n - 1 } else { i - 1 },
        wrap_next(i, n) == if i == n - 1 { 0 } else { i + 1 },
        0 <= wrap_prev(i, n) < n,
        0 <= wrap_next(i, n) < n,
{
    if i == 0 {
        lemma_fundamental_div_mod_converse(i - 1 + n, n, 0, n - 1);
    } else {
        lemma_fundamental_div_mod_converse(i - 1 + n, n, 1, i - 1);
    }
    if i == n - 1 {
        lemma_fundamental_div_mod_converse(i + 1, n, 1, 0);
    } else {
        lemma_fundamental_div_mod_converse(i + 1, n, 0, i + 1);
    }
}

/// A position inside a grid of rows of length `len` has a flat index below
/// `len * rows`, from which the row and the column can be read back.
pub proof fn lemma_flat_index(len: int, rows: int, row: int, col: int)
    requires
        0 <= row < rows,
        0 <= col < len,
    ensures
        0 <= row * len + col < len * rows,
        (row * len + col) / len == row,
        (row * len + col) % len == col,
{
    assert(row * len + col < len * rows) by (nonlinear_arith)
        requires
            0 <= row < rows,
            0 <= col < len,
    ;
    assert(0 <= row * len) by (nonlinear_arith)
        requires
            0 <= row,
            0 < len,
    ;
    lemma_fundamental_div_mod_converse(row * len + col, len, row, col);
}

/// A flat index below `len * rows` names a position inside the grid, from
/// which it is computed back.
pub proof fn lemma_position(len: int, rows: int, i: int)
    requires
        0 <= i < len * rows,
        0 <= len,
        0 <= rows,
    ensures
        0 <= i / len < rows,
        0 <= i % len < len,
        (i / len) * len + i % len == i,
{
    assert(len > 0) by (nonlinear_arith)
        requires
            0 <= i < len * rows,
            0 <= len,
    ;
    lemma_fundamental_div_mod(i, len);
    lemma_mod_bound(i, len);
    let q = i / len;
    assert(q * len == len * q) by (nonlinear_arith);
    assert(0 <= q < rows) by (nonlinear_arith)
        requires
            0 <= i < len * rows,
            len > 0,
            q * len + i % len == i,
            0 <= i % len < len,
    ;
}

} // verus!
