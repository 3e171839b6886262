//! What holds of every board: how many cells and neighbours there are, and
//! what follows from the way opening and rendering are defined.

use crate::board::{digit, in_grid, span, Board};
use crate::minesweeper::OpenResult;
use crate::position::Position;
use vstd::prelude::*;

verus! {

/// The cell `dx` columns and `dy` rows from `p`.
spec fn shifted(p: Position, dx: int, dy: int) -> Position {
    ((p.0 + dx) as usize, (p.1 + dy) as usize)
}

impl Board {
    /// The cells of row `y` in the columns before `end`.
    spec fn row_cells(y: usize, end: nat) -> Set<Position> {
        Set::new(|p: Position| p.0 < end && p.1 == y)
    }

    /// A row has as many cells as columns.
    proof fn lemma_row_count(y: usize, end: nat)
        requires
            end <= usize::MAX,
        ensures
            Self::row_cells(y, end).finite(),
            Self::row_cells(y, end).len() == end,
        decreases end,
    {
        if end == 0 {
            assert(Self::row_cells(y, end) =~= Set::empty());
        } else {
            let last = ((end - 1) as usize, y);
            Self::lemma_row_count(y, (end - 1) as nat);
            assert(Self::row_cells(y, end) =~= Self::row_cells(y, (end - 1) as nat).insert(last));
        }
    }

    /// A grid has as many cells as its width times its height.
    pub proof fn lemma_cells_count(self)
        requires
            self.width <= usize::MAX,
            self.height <= usize::MAX,
        ensures
            self.cells().finite(),
            self.cells().len() == self.width * self.height,
        decreases self.height,
    {
        if self.height == 0 {
            assert(self.cells() =~= Set::empty());
        } else {
            let above = Board { height: (self.height - 1) as nat, ..self };
            let last = Self::row_cells((self.height - 1) as usize, self.width);
            above.lemma_cells_count();
            Self::lemma_row_count((self.height - 1) as usize, self.width);
            assert(self.cells() =~= above.cells().union(last));
            assert(above.cells().disjoint(last));
            vstd::set_lib::lemma_set_disjoint_lens(above.cells(), last);
            assert(self.width * (self.height - 1) + self.width == self.width * self.height)
                by (nonlinear_arith);
        }
    }

    /// A valid board has no more mines than cells, and one with as many mines
    /// as cells has a mine on every cell.
    pub proof fn lemma_mines_fit(self)
        requires
            self.valid(),
        ensures
            self.mines.len() <= self.width * self.height,
            self.cells().subset_of(self.mines) ==> self.mines.len() == self.width * self.height,
    {
        self.lemma_cells_count();
        vstd::set_lib::lemma_len_subset(self.mines, self.cells());
        if self.cells().subset_of(self.mines) {
            assert(self.mines =~= self.cells());
        }
    }

    /// Whether the cell `dx` columns and `dy` rows from `p` is on the grid.
    spec fn reaches(self, p: Position, dx: int, dy: int) -> bool {
        0 <= p.0 + dx < self.width && 0 <= p.1 + dy < self.height
    }

    /// `found` with that cell added, where it is on the grid.
    spec fn gather(self, found: Set<Position>, p: Position, dx: int, dy: int) -> Set<Position> {
        if self.reaches(p, dx, dy) {
            found.insert(shifted(p, dx, dy))
        } else {
            found
        }
    }

    /// The number of neighbours, counted one direction at a time.
    proof fn lemma_neighbors_by_direction(self, p: Position)
        requires
            self.width <= usize::MAX,
            self.height <= usize::MAX,
        ensures
            self.neighbors(p).finite(),
            self.neighbors(p).len() == (if self.reaches(p, -1, -1) { 1nat } else { 0 })
                + (if self.reaches(p, -1, 0) { 1nat } else { 0 })
                + (if self.reaches(p, -1, 1) { 1nat } else { 0 })
                + (if self.reaches(p, 0, -1) { 1nat } else { 0 })
                + (if self.reaches(p, 0, 1) { 1nat } else { 0 })
                + (if self.reaches(p, 1, -1) { 1nat } else { 0 })
                + (if self.reaches(p, 1, 0) { 1nat } else { 0 })
                + (if self.reaches(p, 1, 1) { 1nat } else { 0 }),
    {
        let s0 = Set::<Position>::empty();
        let s1 = self.gather(s0, p, -1, -1);
        let s2 = self.gather(s1, p, -1, 0);
        let s3 = self.gather(s2, p, -1, 1);
        let s4 = self.gather(s3, p, 0, -1);
        let s5 = self.gather(s4, p, 0, 1);
        let s6 = self.gather(s5, p, 1, -1);
        let s7 = self.gather(s6, p, 1, 0);
        let s8 = self.gather(s7, p, 1, 1);
        assert(s8 =~= self.neighbors(p));
    }

    /// No cell has more than eight neighbours.
    pub proof fn lemma_neighbors_bounded(self, p: Position)
        requires
            self.valid(),
        ensures
            self.neighbors(p).finite(),
            self.neighbors(p).len() <= 8,
            self.neighboring_mines(p) <= 8,
    {
        self.lemma_neighbors_by_direction(p);
        vstd::set_lib::lemma_len_intersect(self.neighbors(p), self.mines);
    }

    /// A cell of the grid has as many neighbours as the block of columns and
    /// rows around it has cells, less the cell itself.
    pub proof fn lemma_neighbor_count(self, p: Position)
        requires
            self.valid(),
            in_grid(self.width, self.height, p),
        ensures
            self.neighbors(p).finite(),
            self.neighbors(p).len() == span(p.0, self.width) * span(p.1, self.height) - 1,
    {
        self.lemma_neighbors_by_direction(p);
        let columns = span(p.0, self.width);
        let rows = span(p.1, self.height);
        assert(columns * rows == if columns == 1 {
            rows
        } else if columns == 2 {
            2 * rows
        } else {
            3 * rows
        }) by (nonlinear_arith)
            requires
                1 <= columns <= 3,
        ;
    }
    /// The neighbours of a cell hold neither the cell itself nor anything off
    /// the grid.
    pub proof fn lemma_neighbors_apart_and_on_grid(self, p: Position)
        ensures
            !self.neighbors(p).contains(p),
            self.neighbors(p).subset_of(self.cells()),
    {
    }

    /// On a grid of at least two columns and two rows, a corner has three
    /// neighbours.
    pub proof fn lemma_corner_has_three(self, p: Position)
        requires
            self.valid(),
            self.width >= 2,
            self.height >= 2,
            in_grid(self.width, self.height, p),
            self.at_corner(p),
        ensures
            self.neighbors(p).len() == 3,
    {
        self.lemma_neighbor_count(p);
        let columns = span(p.0, self.width);
        let rows = span(p.1, self.height);
        assert(columns * rows == 4) by (nonlinear_arith)
            requires
                columns == 2,
                rows == 2,
        ;
    }

    /// On a grid of at least two columns and two rows, a cell of the border
    /// that is no corner has five neighbours.
    pub proof fn lemma_edge_has_five(self, p: Position)
        requires
            self.valid(),
            self.width >= 2,
            self.height >= 2,
            in_grid(self.width, self.height, p),
            self.on_border(p),
            !self.at_corner(p),
        ensures
            self.neighbors(p).len() == 5,
    {
        self.lemma_neighbor_count(p);
        let columns = span(p.0, self.width);
        let rows = span(p.1, self.height);
        assert(columns * rows == 6) by (nonlinear_arith)
            requires
                (columns == 2 && rows == 3) || (columns == 3 && rows == 2),
        ;
    }

    /// A cell of the grid that is not on the border has eight neighbours.
    pub proof fn lemma_interior_has_eight(self, p: Position)
        requires
            self.valid(),
            in_grid(self.width, self.height, p),
            !self.on_border(p),
        ensures
            self.neighbors(p).len() == 8,
    {
        self.lemma_neighbor_count(p);
        let columns = span(p.0, self.width);
        let rows = span(p.1, self.height);
        assert(columns * rows == 9) by (nonlinear_arith)
            requires
                columns == 3,
                rows == 3,
        ;
    }

    /// The number of mines around a cell does not depend on which cells were
    /// opened: two boards with the same grid and the same mines agree on it.
    pub proof fn lemma_count_ignores_opened(self, other: Board, p: Position)
        requires
            other.width == self.width,
            other.height == self.height,
            other.mines == self.mines,
        ensures
            other.neighboring_mines(p) == self.neighboring_mines(p),
            self.open(p).neighboring_mines(p) == self.neighboring_mines(p),
    {
    }

    /// Opening a mine reports the mine, whatever lies around it; opening
    /// another cell reports the number of mines around it.
    pub proof fn lemma_open_reports(self, p: Position)
        requires
            self.valid(),
        ensures
            self.mines.contains(p) ==> self.open_result(p) == OpenResult::Mine,
            !self.mines.contains(p) ==> exists|count: u8|
                self.open_result(p) == OpenResult::NoMine(count) && count
                    == self.neighboring_mines(p),
    {
        self.lemma_neighbors_bounded(p);
        if !self.mines.contains(p) {
            let count = self.neighboring_mines(p) as u8;
            assert(self.open_result(p) == OpenResult::NoMine(count) && count
                == self.neighboring_mines(p));
        }
    }

    /// Opening keeps a valid board valid, leaves the grid and the mines as
    /// they are, and takes no cell out of the opened ones.
    pub proof fn lemma_open_keeps(self, p: Position)
        requires
            self.valid(),
        ensures
            self.open(p).valid(),
            self.open(p).width == self.width,
            self.open(p).height == self.height,
            self.open(p).mines == self.mines,
            self.opened.subset_of(self.open(p).opened),
            self.open(p).opened.contains(p),
            self.open(p).opened.len() == self.opened.len() + if self.opened.contains(p) {
                0int
            } else {
                1int
            },
    {
    }

    /// Opening a cell a second time reports what the first time reported and
    /// changes nothing: the board has as many opened cells as before.
    pub proof fn lemma_open_twice(self, p: Position)
        requires
            self.valid(),
        ensures
            self.open(p).open_result(p) == self.open_result(p),
            self.open(p).open(p) == self.open(p),
            self.open(p).open(p).opened.len() == self.open(p).opened.len(),
    {
        assert(self.opened.insert(p).insert(p) =~= self.opened.insert(p));
    }

    /// A row without an opened cell shows glyphs and spaces only.
    proof fn lemma_unopened_row(self, y: usize, end: nat)
        requires
            self.opened.disjoint(self.cells()),
            y < self.height,
            end <= self.width <= usize::MAX,
        ensures
            Self::is_glyph_text(self.row_text(y, end)),
        decreases end,
    {
        if end > 0 {
            self.lemma_unopened_row(y, (end - 1) as nat);
            let last = ((end - 1) as usize, y);
            assert(self.cells().contains(last));
        }
    }

    /// Rows without an opened cell show glyphs, spaces and newlines only.
    proof fn lemma_unopened_rows(self, end: nat)
        requires
            self.opened.disjoint(self.cells()),
            end <= self.height <= usize::MAX,
            self.width <= usize::MAX,
        ensures
            Self::is_glyph_text(self.rows_text(end)),
        decreases end,
    {
        if end > 0 {
            self.lemma_unopened_rows((end - 1) as nat);
            self.lemma_unopened_row((end - 1) as usize, self.width);
        }
    }

    /// While no cell of the grid was opened, the text of the board shows
    /// glyphs, spaces and newlines only: no number.
    pub proof fn lemma_unopened_shows_no_number(self)
        requires
            self.valid(),
            self.opened.disjoint(self.cells()),
        ensures
            Self::is_glyph_text(self.render()),
            forall|i: int, n: nat| 0 <= i < self.render().len() ==> self.render()[i] != digit(n),
    {
        self.lemma_unopened_rows(self.height);
    }
}

} // verus!
