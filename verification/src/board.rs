//! What a board is, apart from how it is stored: the grid, the set of
//! mines, the set of opened cells, and what opening and rendering mean.

use crate::minesweeper::OpenResult;
use crate::position::Position;
use vstd::prelude::*;

verus! {

/// Whether `p` is a cell of a grid with `width` columns and `height` rows.
pub open spec fn in_grid(width: nat, height: nat, p: Position) -> bool {
    p.0 < width && p.1 < height
}

/// Whether `q` touches `p`: at most one column and one row away, and not `p` itself.
pub open spec fn adjacent(p: Position, q: Position) -> bool {
    &&& q != p
    &&& p.0 - 1 <= q.0 <= p.0 + 1
    &&& p.1 - 1 <= q.1 <= p.1 + 1
}

/// The order in which neighbours are listed: by column, and by row within a column.
pub open spec fn precedes(p: Position, q: Position) -> bool {
    p.0 < q.0 || (p.0 == q.0 && p.1 < q.1)
}

/// How many of the lines `at - 1`, `at`, `at + 1` lie in `0..len`, for a line `at` that does.
pub open spec fn span(at: usize, len: nat) -> nat {
    1 + if at > 0 {
        1nat
    } else {
        0nat
    } + if at + 1 < len {
        1nat
    } else {
        0nat
    }
}

/// The glyph of an unopened cell that holds a mine.
pub open spec fn mine_glyph() -> char {
    '\u{1F4A3}'
}

/// The glyph of an unopened cell that holds no mine.
pub open spec fn unopened_glyph() -> char {
    '\u{2B1C}'
}

/// The decimal digit for `n`, a number up to 8.
pub open spec fn digit(n: nat) -> char {
    if n == 0 {
        '0'
    } else if n == 1 {
        '1'
    } else if n == 2 {
        '2'
    } else if n == 3 {
        '3'
    } else if n == 4 {
        '4'
    } else if n == 5 {
        '5'
    } else if n == 6 {
        '6'
    } else if n == 7 {
        '7'
    } else {
        '8'
    }
}

/// What a board is, apart from how it is stored.
pub struct Board {
    pub width: nat,
    pub height: nat,
    pub mines: Set<Position>,
    pub opened: Set<Position>,
}

impl Board {
    /// The grid is not empty, its coordinates fit the machine, both sets are
    /// finite, and every mine lies on the grid.
    pub open spec fn valid(self) -> bool {
        &&& 0 < self.width <= usize::MAX
        &&& 0 < self.height <= usize::MAX
        &&& self.mines.finite()
        &&& self.opened.finite()
        &&& self.mines.subset_of(self.cells())
    }

    /// All cells of the grid.
    pub open spec fn cells(self) -> Set<Position> {
        Set::new(|p: Position| in_grid(self.width, self.height, p))
    }

    /// The cells of the grid that touch `p`.
    pub open spec fn neighbors(self, p: Position) -> Set<Position> {
        Set::new(|q: Position| in_grid(self.width, self.height, q) && adjacent(p, q))
    }

    /// How many of the cells that touch `p` hold a mine.
    pub open spec fn neighboring_mines(self, p: Position) -> nat {
        self.neighbors(p).intersect(self.mines).len()
    }

    /// The board with a mine at `p`, where `p` is a cell of the grid.
    pub open spec fn place_mine(self, p: Position) -> Board {
        if in_grid(self.width, self.height, p) {
            Board { mines: self.mines.insert(p), ..self }
        } else {
            self
        }
    }

    /// The board after `p` was opened.
    pub open spec fn open(self, p: Position) -> Board {
        Board { opened: self.opened.insert(p), ..self }
    }

    /// What opening `p` reports.
    pub open spec fn open_result(self, p: Position) -> OpenResult {
        if self.mines.contains(p) {
            OpenResult::Mine
        } else {
            OpenResult::NoMine(self.neighboring_mines(p) as u8)
        }
    }

    /// The text of one cell: for an opened cell, mine or not, the number of
    /// mines around it between two spaces; for another, its glyph and a space.
    pub open spec fn cell_text(self, p: Position) -> Seq<char> {
        if self.opened.contains(p) {
            seq![' ', digit(self.neighboring_mines(p)), ' ']
        } else if self.mines.contains(p) {
            seq![mine_glyph(), ' ']
        } else {
            seq![unopened_glyph(), ' ']
        }
    }

    /// The text of the cells of row `y` in the columns before `end`, from the
    /// left.
    pub open spec fn row_text(self, y: usize, end: nat) -> Seq<char>
        decreases end,
    {
        if end == 0 {
            Seq::empty()
        } else {
            self.row_text(y, (end - 1) as nat) + self.cell_text(((end - 1) as usize, y))
        }
    }

    /// The text of the rows before `end`, from the top, each closed by a
    /// newline.
    pub open spec fn rows_text(self, end: nat) -> Seq<char>
        decreases end,
    {
        if end == 0 {
            Seq::empty()
        } else {
            self.rows_text((end - 1) as nat) + self.row_text((end - 1) as usize, self.width)
                + seq!['\n']
        }
    }

    /// The board as text: one line for each row.
    pub open spec fn render(self) -> Seq<char> {
        self.rows_text(self.height)
    }

    /// Whether `p` lies in the first or last column, or in the first or last row.
    pub open spec fn on_border(self, p: Position) -> bool {
        p.0 == 0 || p.0 + 1 == self.width || p.1 == 0 || p.1 + 1 == self.height
    }

    /// Whether `p` lies in the first or last column and in the first or last row.
    pub open spec fn at_corner(self, p: Position) -> bool {
        (p.0 == 0 || p.0 + 1 == self.width) && (p.1 == 0 || p.1 + 1 == self.height)
    }

    /// Only the glyphs, the space and the newline.
    pub open spec fn is_glyph_text(text: Seq<char>) -> bool {
        forall|i: int|
            0 <= i < text.len() ==> #[trigger] text[i] == mine_glyph() || text[i]
                == unopened_glyph() || text[i] == ' ' || text[i] == '\n'
    }
}

} // verus!
