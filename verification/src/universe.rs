//! The cell and the grid of cells.

use crate::model::{lemma_flat_index, lemma_wrap, Board, ALIVE_GLYPH, DEAD_GLYPH};
use vstd::prelude::*;

verus! {

/// One position of the grid: dead or alive.
#[derive(Clone, Copy, Debug, PartialEq, Eq, Structural)]
pub enum Cell {
    Dead,
    Alive,
}

impl Cell {
    /// The opposite state.
    pub open spec fn flipped(self) -> Cell {
        match self {
            Cell::Dead => Cell::Alive,
            Cell::Alive => Cell::Dead,
        }
    }

    /// What the cell adds to a count of live cells.
    pub open spec fn population(self) -> nat {
        match self {
            Cell::Dead => 0,
            Cell::Alive => 1,
        }
    }

    /// The byte that stands for the cell in the raw buffer.
    pub open spec fn byte(self) -> u8 {
        match self {
            Cell::Dead => 0,
            Cell::Alive => 1,
        }
    }

    /// The glyph that stands for the cell in the textual rendering.
    pub open spec fn glyph(self) -> char {
        match self {
            Cell::Dead => DEAD_GLYPH,
            Cell::Alive => ALIVE_GLYPH,
        }
    }

    /// The state one generation later, given the number of live neighbours:
    /// a cell is alive then exactly if it has three live neighbours, or is
    /// alive now and has two.
    pub open spec fn next_state(self, live_neighbors: nat) -> Cell {
        if live_neighbors == 3 || (self == Cell::Alive && live_neighbors == 2) {
            Cell::Alive
        } else {
            Cell::Dead
        }
    }

    /// Flips the cell in place.
    pub fn toggle(&mut self)
        ensures
            *final(self) == old(self).flipped(),
    {
        *self = match *self {
            Cell::Dead => Cell::Alive,
            Cell::Alive => Cell::Dead,
        };
    }

    /// Applies the rule of the game to one cell: a live cell with fewer than
    /// two or more than three live neighbours dies, a live cell with two or
    /// three lives on, and a dead cell with exactly three comes alive.
    pub fn evolution(self, live_neighbors: u8) -> (next: Cell)
        ensures
            next == self.next_state(live_neighbors as nat),
    {
        match self {
            Cell::Alive => {
                if live_neighbors < 2 {
                    Cell::Dead
                } else if live_neighbors == 2 || live_neighbors == 3 {
                    Cell::Alive
                } else {
                    Cell::Dead
                }
            },
            Cell::Dead => {
                if live_neighbors == 3 {
                    Cell::Alive
                } else {
                    Cell::Dead
                }
            },
        }
    }
}

/// A buffer of `count` dead cells.
fn dead_cells(count: u32) -> (cells: Vec<Cell>)
    ensures
        cells@ == Seq::new(count as nat, |i: int| Cell::Dead),
{
    let mut cells: Vec<Cell> = Vec::new();
    let mut i: u32 = 0;
    while i < count
        invariant
            i <= count,
            cells@.len() == i,
            forall|k: int| 0 <= k < i ==> cells@[k] == Cell::Dead,
        decreases count - i,
    {
        cells.push(Cell::Dead);
        i += 1;
    }
    assert(cells@ =~= Seq::new(count as nat, |i: int| Cell::Dead));
    cells
}

/// A board of cells whose edges are joined to the opposite edges.
///
/// The buffer always holds `width * height` cells in row-major order.
pub struct Universe {
    width: u32,
    height: u32,
    cells: Vec<Cell>,
}

impl View for Universe {
    type V = Board;

    closed spec fn view(&self) -> Board {
        Board { width: self.width as nat, height: self.height as nat, cells: self.cells@ }
    }
}

impl Universe {
    #[verifier::type_invariant]
    spec fn sized(self) -> bool {
        &&& self.width * self.height <= u32::MAX
        &&& self.cells@.len() == self.width * self.height
    }

    /// A board of the given size in the fixed starting pattern: the cell at
    /// flat index `i` is alive when `i` is a multiple of 2 or of 7.
    pub fn new(width: u32, height: u32) -> (universe: Universe)
        requires
            width * height <= u32::MAX,
        ensures
            universe@ == Board::seeded(width as nat, height as nat),
            universe@.wf(),
    {
        let total: u32 = width * height;
        let mut cells: Vec<Cell> = Vec::new();
        let mut i: u32 = 0;
        while i < total
            invariant
                i <= total,
                cells@.len() == i,
                forall|k: int|
                    0 <= k < i ==> cells@[k] == if k % 2 == 0 || k % 7 == 0 {
                        Cell::Alive
                    } else {
                        Cell::Dead
                    },
            decreases total - i,
        {
            let cell = if i % 2 == 0 || i % 7 == 0 {
                Cell::Alive
            } else {
                Cell::Dead
            };
            cells.push(cell);
            i += 1;
        }
        let universe = Universe { width, height, cells };
        assert(universe@.cells =~= Board::seeded(width as nat, height as nat).cells);
        universe
    }

    /// Number of columns.
    pub fn width(&self) -> (width: u32)
        ensures
            width == self@.width,
    {
        self.width
    }

    /// Number of rows.
    pub fn height(&self) -> (height: u32)
        ensures
            height == self@.height,
    {
        self.height
    }

    /// The live buffer, borrowed: one cell per position in row-major order.
    pub fn get_cells(&self) -> (cells: &[Cell])
        ensures
            cells@ == self@.cells,
            cells@.len() == self@.width * self@.height,
            self@.wf(),
    {
        proof {
            use_type_invariant(self);
        }
        self.cells.as_slice()
    }

    /// The buffer as bytes in row-major order: 0 for a dead cell, 1 for a
    /// live one.
    pub fn cells(&self) -> (bytes: Vec<u8>)
        ensures
            bytes@ == self@.bytes(),
            bytes@.len() == self@.width * self@.height,
    {
        proof {
            use_type_invariant(self);
        }
        let mut bytes: Vec<u8> = Vec::with_capacity(self.cells.len());
        let mut i: usize = 0;
        while i < self.cells.len()
            invariant
                i <= self.cells@.len(),
                bytes@.len() == i,
                forall|k: int| 0 <= k < i ==> bytes@[k] == self.cells@[k].byte(),
            decreases self.cells@.len() - i,
        {
            let byte: u8 = match self.cells[i] {
                Cell::Dead => 0,
                Cell::Alive => 1,
            };
            bytes.push(byte);
            i += 1;
        }
        assert(bytes@ =~= self@.bytes());
        bytes
    }

    /// The board as text: one line per row, each cell as one glyph, each row
    /// closed by a line feed.
    pub fn render(&self) -> (text: String)
        ensures
            text@ == self@.rendered(),
    {
        proof {
            use_type_invariant(self);
        }
        let width = self.width;
        let height = self.height;
        let mut text = String::new();
        let mut row: u32 = 0;
        while row < height
            invariant
                width == self.width,
                height == self.height,
                self.cells@.len() == width * height,
                row <= height,
                text@.len() == row * (width + 1),
                forall|k: int| 0 <= k < text@.len() ==> text@[k] == self@.rendered_char(k),
            decreases height - row,
        {
            let mut column: u32 = 0;
            while column < width
                invariant
                    width == self.width,
                    height == self.height,
                    self.cells@.len() == width * height,
                    row < height,
                    column <= width,
                    text@.len() == row * (width + 1) + column,
                    forall|k: int| 0 <= k < text@.len() ==> text@[k] == self@.rendered_char(k),
                decreases width - column,
            {
                let idx = self.get_index(row, column);
                proof {
                    reveal_strlit("\u{25FB}");
                    reveal_strlit("\u{25FC}");
                    lemma_flat_index(width + 1, height as int, row as int, column as int);
                }
                match self.cells[idx] {
                    Cell::Dead => text.append("\u{25FB}"),
                    Cell::Alive => text.append("\u{25FC}"),
                }
                column += 1;
            }
            proof {
                reveal_strlit("\n");
                lemma_flat_index(width + 1, height as int, row as int, width as int);
                assert((row + 1) * (width + 1) == row * (width + 1) + width + 1)
                    by (nonlinear_arith);
            }
            text.append("\n");
            row += 1;
        }
        assert(text@ =~= self@.rendered());
        text
    }

    /// Flips the cell at one position and leaves every other cell as it was.
    pub fn toggle_cell(&mut self, row: u32, column: u32)
        requires
            old(self)@.in_bounds(row as int, column as int),
        ensures
            final(self)@ == old(self)@.toggled(row as int, column as int),
            final(self)@.wf(),
    {
        proof {
            use_type_invariant(&*self);
        }
        let idx = self.get_index(row, column);
        let mut cell = self.cells[idx];
        cell.toggle();
        self.cells[idx] = cell;
    }

    /// Makes the cell at each listed position alive and leaves the others as
    /// they were.
    pub fn set_cells_alive(&mut self, cells: &[(u32, u32)])
        requires
            forall|k: int|
                0 <= k < cells@.len() ==> old(self)@.in_bounds(
                    (#[trigger] cells@[k]).0 as int,
                    cells@[k].1 as int,
                ),
        ensures
            final(self)@ == old(self)@.revived(cells@),
            final(self)@.wf(),
    {
        proof {
            use_type_invariant(&*self);
        }
        let mut k: usize = 0;
        while k < cells.len()
            invariant
                k <= cells@.len(),
                self.width == old(self).width,
                self.height == old(self).height,
                self.cells@.len() == self.width * self.height,
                self.width * self.height <= u32::MAX,
                forall|j: int|
                    0 <= j < cells@.len() ==> self@.in_bounds(
                        (#[trigger] cells@[j]).0 as int,
                        cells@[j].1 as int,
                    ),
                forall|i: int|
                    0 <= i < self.cells@.len() ==> self.cells@[i] == if old(self)@.names(
                        cells@,
                        k as int,
                        i,
                    ) {
                        Cell::Alive
                    } else {
                        old(self).cells@[i]
                    },
            decreases cells@.len() - k,
        {
            let (row, column) = cells[k];
            let idx = self.get_index(row, column);
            self.cells[idx] = Cell::Alive;
            proof {
                let board = old(self)@;
                assert(board.index(cells@[k as int].0 as int, cells@[k as int].1 as int) == idx);
                assert forall|i: int| 0 <= i < self.cells@.len() implies board.names(
                    cells@,
                    k + 1,
                    i,
                ) == (board.names(cells@, k as int, i) || i == idx) by {}
            }
            k += 1;
        }
        assert(self@.cells =~= old(self)@.revived(cells@).cells);
    }

    /// Makes every cell dead and the board `width` columns wide. What the
    /// board held is not kept.
    pub fn set_width(&mut self, width: u32)
        requires
            width * old(self)@.height <= u32::MAX,
        ensures
            final(self)@ == Board::cleared(width as nat, old(self)@.height),
            final(self)@.wf(),
    {
        let height = self.height;
        *self = Universe { width, height, cells: dead_cells(width * height) };
    }

    /// Makes every cell dead and the board `height` rows high. What the
    /// board held is not kept.
    pub fn set_height(&mut self, height: u32)
        requires
            old(self)@.width * height <= u32::MAX,
        ensures
            final(self)@ == Board::cleared(old(self)@.width, height as nat),
            final(self)@.wf(),
    {
        let width = self.width;
        *self = Universe { width, height, cells: dead_cells(width * height) };
    }

    /// Flat index of a position of the board.
    fn get_index(&self, row: u32, column: u32) -> (idx: usize)
        requires
            self@.in_bounds(row as int, column as int),
        ensures
            idx == self@.index(row as int, column as int),
            idx < self@.cells.len(),
    {
        proof {
            use_type_invariant(self);
            lemma_flat_index(self.width as int, self.height as int, row as int, column as int);
        }
        (row * self.width + column) as usize
    }

    /// 1 if the cell at the position is alive, else 0.
    fn alive_at(&self, row: u32, column: u32) -> (n: u8)
        requires
            self@.in_bounds(row as int, column as int),
        ensures
            n == self@.alive_at(row as int, column as int),
            n <= 1,
    {
        let idx = self.get_index(row, column);
        match self.cells[idx] {
            Cell::Dead => 0,
            Cell::Alive => 1,
        }
    }

    /// Counts the live cells among the eight neighbours of a position, going
    /// round the edges of the board.
    pub fn live_neighbor_count(&self, row: u32, column: u32) -> (count: u8)
        requires
            self@.in_bounds(row as int, column as int),
        ensures
            count == self@.live_neighbors(row as int, column as int),
            count <= 8,
    {
        proof {
            lemma_wrap(row as int, self.height as int);
            lemma_wrap(column as int, self.width as int);
        }
        let above = if row == 0 { self.height - 1 } else { row - 1 };
        let below = if row == self.height - 1 { 0 } else { row + 1 };
        let left = if column == 0 { self.width - 1 } else { column - 1 };
        let right = if column == self.width - 1 { 0 } else { column + 1 };
        self.alive_at(above, left) + self.alive_at(above, column) + self.alive_at(above, right)
            + self.alive_at(row, left) + self.alive_at(row, right)
            + self.alive_at(below, left) + self.alive_at(below, column)
            + self.alive_at(below, right)
    }

    /// Replaces the board by its next generation. Every cell is decided from
    /// the board as it stood before the call.
    pub fn tick(&mut self)
        ensures
            final(self)@ == old(self)@.next_generation(),
            final(self)@.wf(),
    {
        proof {
            use_type_invariant(&*self);
        }
        let width = self.width;
        let height = self.height;
        let mut next: Vec<Cell> = Vec::with_capacity(self.cells.len());
        let mut row: u32 = 0;
        while row < height
            invariant
                *self == *old(self),
                width == self.width,
                height == self.height,
                self.cells@.len() == width * height,
                row <= height,
                next@.len() == row * width,
                forall|k: int| 0 <= k < next@.len() ==> next@[k] == self@.next_cell(k),
            decreases height - row,
        {
            let mut column: u32 = 0;
            while column < width
                invariant
                    *self == *old(self),
                    width == self.width,
                    height == self.height,
                    self.cells@.len() == width * height,
                    row < height,
                    column <= width,
                    next@.len() == row * width + column,
                    forall|k: int| 0 <= k < next@.len() ==> next@[k] == self@.next_cell(k),
                decreases width - column,
            {
                proof {
                    lemma_flat_index(width as int, height as int, row as int, column as int);
                }
                let count = self.live_neighbor_count(row, column);
                let idx = self.get_index(row, column);
                let cell = self.cells[idx].evolution(count);
                next.push(cell);
                column += 1;
            }
            assert((row + 1) * width == row * width + width) by (nonlinear_arith);
            row += 1;
        }
        assert(next@.len() == self.width * self.height) by (nonlinear_arith)
            requires
                next@.len() == row * width,
                row == height,
                width == self.width,
                height == self.height,
        ;
        self.cells = next;
        assert(self@.cells =~= old(self)@.next_generation().cells);
    }
}

} // verus!
