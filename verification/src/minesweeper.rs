//! The board as it is stored, with the operations on it.

use crate::board::{digit, in_grid, precedes, Board};
use crate::position::{Position, PositionSet};
use crate::random::random_range;
use vstd::prelude::*;

verus! {

/// How many draws the placing of mines may use for each mine asked for.
///
/// The limit is generous. The hardest board is one that is to be filled to
/// the last cell, and there the chance that the draws run out before every
/// cell was drawn is below the number of cells divided by `e^64`.
pub const DRAWS_PER_MINE: u128 = 64;

/// What opening a cell reports.
#[derive(Clone, Copy, Debug, PartialEq, Eq, Structural)]
pub enum OpenResult {
    /// The cell holds a mine.
    Mine,
    /// The cell holds no mine; so many of the cells that touch it do.
    NoMine(u8),
}

/// A minesweeper board: a grid, the cells that hold a mine, and the cells
/// that were opened.
pub struct Minesweeper {
    width: usize,
    height: usize,
    mines: PositionSet,
    open_fields: PositionSet,
}

impl View for Minesweeper {
    type V = Board;

    closed spec fn view(&self) -> Board {
        Board {
            width: self.width as nat,
            height: self.height as nat,
            mines: self.mines@,
            opened: self.open_fields@,
        }
    }
}

impl Minesweeper {
    /// Both sets of positions are well-formed.
    pub closed spec fn sets_wf(&self) -> bool {
        self.mines.wf() && self.open_fields.wf()
    }

    /// The board is stored soundly, and what it stands for is valid. Every
    /// board that `new` makes is, and every method keeps it so.
    pub open spec fn wf(&self) -> bool {
        self.sets_wf() && self@.valid()
    }

    /// A board of `width` columns and `height` rows with `mine_count` mines on
    /// cells drawn at random, and no cell opened.
    ///
    /// Each draw is a column from `random_range(0, width)` and a row from
    /// `random_range(0, height)`; a draw that lands on a mine is made again.
    /// So that construction ends whatever is drawn, the draws are limited to
    /// `DRAWS_PER_MINE` for each mine asked for. Mines still missing after
    /// that go on the first free cells, row by row.
    pub fn new(width: usize, height: usize, mine_count: usize) -> (board: Minesweeper)
        requires
            0 < width,
            0 < height,
            mine_count <= width * height,
        ensures
            board.wf(),
            board@.width == width,
            board@.height == height,
            board@.mines.len() == mine_count,
            board@.mines.subset_of(board@.cells()),
            board@.opened == Set::<Position>::empty(),
    {
        let mut board = Minesweeper {
            width,
            height,
            mines: PositionSet::new(),
            open_fields: PositionSet::new(),
        };
        let mut draws_left: u128 = mine_count as u128 * DRAWS_PER_MINE;
        while board.mines.len() < mine_count && draws_left > 0
            invariant
                board.wf(),
                board.width == width,
                board.height == height,
                0 < width,
                0 < height,
                board@.mines.len() <= mine_count,
                board@.opened == Set::<Position>::empty(),
            decreases draws_left,
        {
            let x = random_range(0, width);
            let y = random_range(0, height);
            board.place_mine((x, y));
            draws_left -= 1;
        }
        board.fill_mines(mine_count);
        board
    }

    /// Puts mines on the first free cells, row by row, until the board holds
    /// `mine_count` of them.
    fn fill_mines(&mut self, mine_count: usize)
        requires
            old(self).wf(),
            old(self)@.mines.len() <= mine_count <= old(self)@.width * old(self)@.height,
        ensures
            final(self).wf(),
            final(self)@.width == old(self)@.width,
            final(self)@.height == old(self)@.height,
            final(self)@.opened == old(self)@.opened,
            old(self)@.mines.subset_of(final(self)@.mines),
            final(self)@.mines.len() == mine_count,
    {
        let mut y: usize = 0;
        while y < self.height && self.mines.len() < mine_count
            invariant
                self.wf(),
                self@.width == old(self)@.width,
                self@.height == old(self)@.height,
                self@.opened == old(self)@.opened,
                old(self)@.mines.subset_of(self@.mines),
                self@.mines.len() <= mine_count <= self@.width * self@.height,
                y <= self.height,
                filled_until(self@, 0, y as int),
            decreases self.height - y,
        {
            let mut x: usize = 0;
            while x < self.width && self.mines.len() < mine_count
                invariant
                    self.wf(),
                    self@.width == old(self)@.width,
                    self@.height == old(self)@.height,
                    self@.opened == old(self)@.opened,
                    old(self)@.mines.subset_of(self@.mines),
                    self@.mines.len() <= mine_count <= self@.width * self@.height,
                    y < self.height,
                    x <= self.width,
                    filled_until(self@, x as int, y as int),
                decreases self.width - x,
            {
                self.place_mine((x, y));
                x += 1;
            }
            if self.mines.len() == mine_count {
                return ;
            }
            y += 1;
        }
        proof {
            if self@.mines.len() < mine_count {
                self@.lemma_mines_fit();
            }
        }
    }

    /// The cells of the grid that touch `pos`, column by column and from the
    /// top of each column down.
    pub fn iter_neighbors(&self, pos: Position) -> (around: Vec<Position>)
        requires
            self.wf(),
        ensures
            around@.to_set() == self@.neighbors(pos),
            around@.no_duplicates(),
            forall|i: int, j: int| 0 <= i < j < around.len() ==> precedes(around[i], around[j]),
            around.len() == self@.neighbors(pos).len(),
            around.len() <= 8,
            !around@.contains(pos),
            forall|i: int|
                0 <= i < around.len() ==> in_grid(self@.width, self@.height, #[trigger] around[i]),
    {
        let (x, y) = pos;
        let first_column: usize = if x > 0 { x - 1 } else { 0 };
        let end_column: usize = if x < self.width - 1 { x + 2 } else { self.width };
        let first_row: usize = if y > 0 { y - 1 } else { 0 };
        let end_row: usize = if y < self.height - 1 { y + 2 } else { self.height };
        let ghost board = self@;
        let mut around: Vec<Position> = Vec::new();
        let mut i: usize = first_column;
        while i < end_column
            invariant
                first_column <= i,
                pos == (x, y),
                framed(board, pos, first_column, end_column, first_row, end_row),
                listed_until(board, pos, around@, i as int, first_row as int),
                ascending(around@),
            decreases end_column - i,
        {
            let mut j: usize = first_row;
            while j < end_row
                invariant
                    first_column <= i < end_column,
                    first_row <= j,
                    pos == (x, y),
                    framed(board, pos, first_column, end_column, first_row, end_row),
                    listed_until(board, pos, around@, i as int, j as int),
                    ascending(around@),
                decreases end_row - j,
            {
                if i != x || j != y {
                    let ghost before = around@;
                    around.push((i, j));
                    proof {
                        assert forall|q: Position| #[trigger]
                            around@.contains(q) <==> before.contains(q) || q == (i, j) by {
                            vstd::seq_lib::lemma_seq_contains_after_push(before, (i, j), q);
                        }
                        assert forall|a: int, b: int| 0 <= a < b < around.len() implies precedes(
                            around[a],
                            around[b],
                        ) by {
                            if b == before.len() {
                                assert(before.contains(before[a]));
                            }
                        }
                    }
                }
                j += 1;
            }
            i += 1;
        }
        proof {
            assert(around@.to_set() =~= board.neighbors(pos));
            assert forall|i: int| 0 <= i < around.len() implies in_grid(
                board.width,
                board.height,
                #[trigger] around[i],
            ) by {
                assert(around@.contains(around[i]));
            }
            assert forall|a: int, b: int| 0 <= a < b < around.len() implies around[a]
                != around[b] by {
                assert(precedes(around[a], around[b]));
            }
            board.lemma_neighbors_bounded(pos);
            around@.unique_seq_to_set();
        }
        around
    }

    /// How many of the cells that touch `pos` hold a mine, whether or not any
    /// of them was opened.
    pub fn neighboring_mines(&self, pos: Position) -> (count: u8)
        requires
            self.wf(),
        ensures
            count == self@.neighboring_mines(pos),
            count <= 8,
    {
        let around = self.iter_neighbors(pos);
        let ghost mines = self@.mines;
        let mut count: u8 = 0;
        let mut k: usize = 0;
        proof {
            assert(around@.take(0).to_set().intersect(mines) =~= Set::<Position>::empty());
        }
        while k < around.len()
            invariant
                k <= around.len() <= 8,
                around@.no_duplicates(),
                mines == self.mines@,
                mines.finite(),
                count == around@.take(k as int).to_set().intersect(mines).len(),
                count <= k,
            decreases around.len() - k,
        {
            let found = self.mines.contains(around[k]);
            proof {
                let seen = around@.take(k as int);
                assert(around@.take(k + 1) =~= seen.push(around[k as int]));
                seen.lemma_push_to_set_commute(around[k as int]);
                if found {
                    assert(seen.to_set().insert(around[k as int]).intersect(mines)
                        =~= seen.to_set().intersect(mines).insert(around[k as int]));
                } else {
                    assert(seen.to_set().insert(around[k as int]).intersect(mines)
                        =~= seen.to_set().intersect(mines));
                }
            }
            if found {
                count += 1;
            }
            k += 1;
        }
        proof {
            assert(around@.take(k as int) =~= around@);
        }
        count
    }

    /// Opens `pos`, on the grid or off it, and reports what the cell holds.
    /// Opening a cell opens no other cell.
    pub fn open(&mut self, pos: Position) -> (result: OpenResult)
        requires
            old(self).wf(),
        ensures
            final(self).wf(),
            final(self)@ == old(self)@.open(pos),
            result == old(self)@.open_result(pos),
    {
        self.open_fields.insert(pos);
        if self.mines.contains(pos) {
            OpenResult::Mine
        } else {
            OpenResult::NoMine(self.neighboring_mines(pos))
        }
    }

    /// Puts a mine on `pos` and says whether the board has one more mine for
    /// it: it has not where `pos` is off the grid or held a mine before.
    pub fn place_mine(&mut self, pos: Position) -> (placed: bool)
        requires
            old(self).wf(),
        ensures
            final(self).wf(),
            final(self)@ == old(self)@.place_mine(pos),
            placed == (in_grid(old(self)@.width, old(self)@.height, pos) && !old(
                self,
            )@.mines.contains(pos)),
    {
        if pos.0 < self.width && pos.1 < self.height {
            self.mines.insert(pos)
        } else {
            false
        }
    }

    /// The board as text, a line for each row from the top: an opened cell
    /// shows the number of mines around it, any other cell the glyph of a
    /// mine or of an unopened cell.
    pub fn render(&self) -> (text: String)
        requires
            self.wf(),
        ensures
            text@ == self@.render(),
    {
        let mut text = String::new();
        let mut y: usize = 0;
        while y < self.height
            invariant
                self.wf(),
                y <= self.height,
                text@ == self@.rows_text(y as nat),
            decreases self.height - y,
        {
            let mut x: usize = 0;
            while x < self.width
                invariant
                    self.wf(),
                    y < self.height,
                    x <= self.width,
                    text@ == self@.rows_text(y as nat) + self@.row_text(y, x as nat),
                decreases self.width - x,
            {
                let pos = (x, y);
                if self.open_fields.contains(pos) {
                    text.append(count_token(self.neighboring_mines(pos)));
                } else if self.mines.contains(pos) {
                    proof {
                        reveal_strlit("\u{1F4A3} ");
                    }
                    text.append("\u{1F4A3} ");
                } else {
                    proof {
                        reveal_strlit("\u{2B1C} ");
                    }
                    text.append("\u{2B1C} ");
                }
                x += 1;
            }
            proof {
                reveal_strlit("\n");
            }
            text.append("\n");
            y += 1;
        }
        text
    }

    /// The number of columns.
    pub fn width(&self) -> (width: usize)
        ensures
            width == self@.width,
    {
        self.width
    }

    /// The number of rows.
    pub fn height(&self) -> (height: usize)
        ensures
            height == self@.height,
    {
        self.height
    }

    /// The number of mines on the board.
    pub fn mine_count(&self) -> (count: usize)
        requires
            self.wf(),
        ensures
            count == self@.mines.len(),
    {
        self.mines.len()
    }

    /// The number of positions that were opened.
    pub fn opened_count(&self) -> (count: usize)
        requires
            self.wf(),
        ensures
            count == self@.opened.len(),
    {
        self.open_fields.len()
    }

    /// Whether `pos` holds a mine.
    pub fn is_mine(&self, pos: Position) -> (mine: bool)
        ensures
            mine == self@.mines.contains(pos),
    {
        self.mines.contains(pos)
    }

    /// Whether `pos` was opened.
    pub fn is_open(&self, pos: Position) -> (open: bool)
        ensures
            open == self@.opened.contains(pos),
    {
        self.open_fields.contains(pos)
    }
}

/// The text of an opened cell with `count` mines around it.
fn count_token(count: u8) -> (token: &'static str)
    requires
        count <= 8,
    ensures
        token@ == seq![' ', digit(count as nat), ' '],
{
    proof {
        reveal_strlit(" 0 ");
        reveal_strlit(" 1 ");
        reveal_strlit(" 2 ");
        reveal_strlit(" 3 ");
        reveal_strlit(" 4 ");
        reveal_strlit(" 5 ");
        reveal_strlit(" 6 ");
        reveal_strlit(" 7 ");
        reveal_strlit(" 8 ");
    }
    let token = match count {
        0 => " 0 ",
        1 => " 1 ",
        2 => " 2 ",
        3 => " 3 ",
        4 => " 4 ",
        5 => " 5 ",
        6 => " 6 ",
        7 => " 7 ",
        _ => " 8 ",
    };
    token
}

/// Every cell of the rows before `y`, and of row `y` before column `x`, holds
/// a mine.
spec fn filled_until(board: Board, x: int, y: int) -> bool {
    forall|p: Position|
        in_grid(board.width, board.height, p) && (p.1 < y || (p.1 == y && p.0 < x))
            ==> #[trigger] board.mines.contains(p)
}

/// `listed` holds the neighbours of `pos` that come before column `i`, row `j`,
/// and nothing else.
spec fn listed_until(board: Board, pos: Position, listed: Seq<Position>, i: int, j: int) -> bool {
    forall|q: Position| #[trigger]
        listed.contains(q) <==> board.neighbors(pos).contains(q) && (q.0 < i || (q.0 == i && q.1
            < j))
}

/// The neighbours of `pos` are the cells of the given columns and rows, but for
/// `pos` itself.
spec fn framed(
    board: Board,
    pos: Position,
    first_column: usize,
    end_column: usize,
    first_row: usize,
    end_row: usize,
) -> bool {
    forall|q: Position| #[trigger]
        board.neighbors(pos).contains(q) <==> {
            &&& first_column <= q.0 < end_column
            &&& first_row <= q.1 < end_row
            &&& q != pos
        }
}

/// Each entry comes before the ones after it.
spec fn ascending(listed: Seq<Position>) -> bool {
    forall|a: int, b: int| 0 <= a < b < listed.len() ==> precedes(listed[a], listed[b])
}

} // verus!
