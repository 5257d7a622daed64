//! The board as a grid of cells, each with the state of its right side,
//! its lower side and the intersection at its lower right corner: the
//! form in which a board is drawn.

use vstd::prelude::*;
use vstd::std_specs::convert::FromSpecImpl;
use crate::bitpacked::{BoardV2, State};
use crate::moves::{on_board, Direction, Player};
use crate::rules::BoardView;

verus! {

/// The state of a side of a cell, or of an intersection.
#[derive(Clone, Copy, PartialEq, Eq, Debug, Structural)]
pub enum WallState {
    Wall,
    Open,
}

/// A cell: its right side, its lower side, and the intersection at its
/// lower right corner.
#[derive(Clone, Copy, PartialEq, Eq)]
pub struct Cell<WS> {
    pub right: WS,
    pub bottom: WS,
    pub joint: WS,
}

pub type RegularCell = Cell<WallState>;

/// The board, cell by cell; `cells[y][x]` is the cell `(x, y)`.
#[derive(Clone, Copy, PartialEq, Eq)]
pub struct BoardV1 {
    pub cells: [[RegularCell; 9]; 9],
    pub player1_loc: (u8, u8),
    pub player2_loc: (u8, u8),
    pub player1_walls: u8,
    pub player2_walls: u8,
}

/// What a side is when it is open or not.
pub open spec fn side(open: bool) -> WallState {
    if open {
        WallState::Open
    } else {
        WallState::Wall
    }
}

/// The cell `(x, y)` as a game shows it. In the last column a cell has
/// no right side to show, in the last row no lower side, and in either
/// no intersection: these are open.
pub open spec fn cell_of(v: BoardView, x: int, y: int) -> RegularCell {
    Cell {
        right: side(x == 8 || v.open_right((x, y))),
        bottom: side(y == 8 || v.open_down((x, y))),
        joint: side(x == 8 || y == 8 || !(v.horizontal.contains((x, y)) || v.vertical.contains((x, y)))),
    }
}

impl BoardV1 {
    /// The grid shows the game `v`.
    pub open spec fn shows(self, v: BoardView) -> bool {
        &&& forall|x: int, y: int| 0 <= x < 9 && 0 <= y < 9 ==> #[trigger] self.cells[y][x] == cell_of(v, x, y)
        &&& (self.player1_loc.0 as int, self.player1_loc.1 as int) == v.player1
        &&& (self.player2_loc.0 as int, self.player2_loc.1 as int) == v.player2
        &&& self.player1_walls == v.walls1
        &&& self.player2_walls == v.walls2
    }

    /// The grid at the start of a game.
    pub fn empty() -> (r: BoardV1)
        ensures
            r.shows(BoardView::start()),
    {
        let open_cell = RegularCell { right: WallState::Open, bottom: WallState::Open, joint: WallState::Open };
        let open_cells = [open_cell;9];
        BoardV1 {
            cells: [open_cells;9],
            player1_loc: (4, 0),
            player2_loc: (4, 8),
            player1_walls: 10,
            player2_walls: 10,
        }
    }

    /// The cell `(x, y)`.
    pub fn cell(&self, at: &(u8, u8)) -> (r: &RegularCell)
        requires
            at.0 < 9,
            at.1 < 9,
        ensures
            *r == self.cells[at.1 as int][at.0 as int],
    {
        &self.cells[at.1 as usize][at.0 as usize]
    }

    /// The cell of a player's token.
    pub fn location(&self, player: &Player) -> (r: &(u8, u8))
        ensures
            *r == match *player {
                Player::Player1 => self.player1_loc,
                Player::Player2 => self.player2_loc,
            },
    {
        match player {
            Player::Player1 => &self.player1_loc,
            Player::Player2 => &self.player2_loc,
        }
    }

    /// The cell of a player's token, to be changed.
    pub fn location_mut(&mut self, player: &Player) -> (r: &mut (u8, u8))
        ensures
            *r == match *player {
                Player::Player1 => old(self).player1_loc,
                Player::Player2 => old(self).player2_loc,
            },
            *final(self) == match *player {
                Player::Player1 => BoardV1 { player1_loc: *final(r), ..*old(self) },
                Player::Player2 => BoardV1 { player2_loc: *final(r), ..*old(self) },
            },
    {
        match player {
            Player::Player1 => &mut self.player1_loc,
            Player::Player2 => &mut self.player2_loc,
        }
    }

    /// The cell `(x, y)`, to be changed.
    pub fn cell_mut(&mut self, at: &(u8, u8)) -> (r: &mut RegularCell)
        requires
            at.0 < 9,
            at.1 < 9,
        ensures
            *r == old(self).cells[at.1 as int][at.0 as int],
            forall|x: int, y: int|
                0 <= x < 9 && 0 <= y < 9 ==> #[trigger] final(self).cells[y][x] == (if x == at.0 && y == at.1 {
                    *final(r)
                } else {
                    old(self).cells[y][x]
                }),
            final(self).player1_loc == old(self).player1_loc,
            final(self).player2_loc == old(self).player2_loc,
            final(self).player1_walls == old(self).player1_walls,
            final(self).player2_walls == old(self).player2_walls,
    {
        &mut self.cells[at.1 as usize][at.0 as usize]
    }

    /// The cell of a player's token.
    pub fn player_location(&self, player: Player) -> (r: (u8, u8))
        ensures
            r == match player {
                Player::Player1 => self.player1_loc,
                Player::Player2 => self.player2_loc,
            },
    {
        *self.location(&player)
    }

    /// The walls that the player may still place.
    pub fn available_walls(&self, player: Player) -> (r: u8)
        ensures
            r == match player {
                Player::Player1 => self.player1_walls,
                Player::Player2 => self.player2_walls,
            },
    {
        match player {
            Player::Player1 => self.player1_walls,
            Player::Player2 => self.player2_walls,
        }
    }

    /// A token on `c` can step in direction `d`, as far as the grid
    /// shows: both cells are on the board, and the side between the two
    /// is open.
    pub open spec fn passable(self, c: (int, int), d: Direction) -> bool {
        on_board(c) && on_board(d.step(c)) && match d {
            Direction::Down => self.cells[c.1][c.0].bottom == WallState::Open,
            Direction::Up => self.cells[c.1 - 1][c.0].bottom == WallState::Open,
            Direction::Left => self.cells[c.1][c.0 - 1].right == WallState::Open,
            Direction::Right => self.cells[c.1][c.0].right == WallState::Open,
        }
    }

    /// On a grid that shows a game, what is passable is what is passable
    /// in the game.
    pub proof fn lemma_passable_as_shown(self, v: BoardView, c: (int, int), d: Direction)
        requires
            self.shows(v),
        ensures
            self.passable(c, d) == v.passable(c, d),
    {
        if on_board(c) && on_board(d.step(c)) {
            assert(self.cells[c.1][c.0] == cell_of(v, c.0, c.1));
            assert(self.cells[d.step(c).1][d.step(c).0] == cell_of(v, d.step(c).0, d.step(c).1));
        }
    }

    /// A token on `loc` can step in `direction`, as far as the grid
    /// shows: the neighbouring cell exists and the side between the two
    /// is open.
    pub fn is_passible(&self, loc: (u8, u8), direction: Direction) -> (r: bool)
        ensures
            r == self.passable((loc.0 as int, loc.1 as int), direction),
    {
        if loc.0 >= 9 || loc.1 >= 9 {
            return false;
        }
        let (x, y) = loc;
        match direction {
            Direction::Down => y < 8 && self.cell(&(x, y)).bottom == WallState::Open,
            Direction::Up => y > 0 && self.cell(&(x, y - 1)).bottom == WallState::Open,
            Direction::Left => x > 0 && self.cell(&(x - 1, y)).right == WallState::Open,
            Direction::Right => x < 8 && self.cell(&(x, y)).right == WallState::Open,
        }
    }
}

impl From<BoardV2> for BoardV1 {
    /// The grid that shows a bit-packed board.
    fn from(board: BoardV2) -> (r: BoardV1)
        ensures
            r.shows(board@),
    {
        let open_cell = RegularCell { right: WallState::Open, bottom: WallState::Open, joint: WallState::Open };
        let mut cells = [[open_cell;9];9];
        let mut y: u8 = 0;
        while y < 9
            invariant
                y <= 9,
                forall|i: int, j: int| 0 <= i < 9 && 0 <= j < y ==> #[trigger] cells[j][i] == cell_of(board@, i, j),
            decreases 9 - y,
        {
            let mut row = [open_cell;9];
            let mut x: u8 = 0;
            while x < 9
                invariant
                    x <= 9,
                    y < 9,
                    forall|i: int| 0 <= i < x ==> #[trigger] row[i] == cell_of(board@, i, y as int),
                decreases 9 - x,
            {
                let loc = (x, y);
                let right = if x == 8 || board.is_passible_right(loc) {
                    WallState::Open
                } else {
                    WallState::Wall
                };
                let bottom = if y == 8 || board.is_passible_down(loc) {
                    WallState::Open
                } else {
                    WallState::Wall
                };
                let joint = if x == 8 || y == 8 || board.get_wall_state(loc).is_none() {
                    WallState::Open
                } else {
                    WallState::Wall
                };
                row[x as usize] = RegularCell { right, bottom, joint };
                x = x + 1;
            }
            cells[y as usize] = row;
            y = y + 1;
        }
        let r = BoardV1 {
            cells,
            player1_loc: board.player_location(Player::Player1),
            player2_loc: board.player_location(Player::Player2),
            player1_walls: board.player1_walls,
            player2_walls: board.player2_walls,
        };
        proof {
            assert(r.shows(board@));
            lemma_shows_one(r, choose|r: BoardV1| r.shows(board@), board@);
        }
        r
    }
}

impl FromSpecImpl<BoardV2> for BoardV1 {
    open spec fn obeys_from_spec() -> bool {
        true
    }

    /// The one grid that shows the board.
    open spec fn from_spec(board: BoardV2) -> BoardV1 {
        choose|r: BoardV1| r.shows(board@)
    }
}

/// A game is shown by one grid only.
pub proof fn lemma_shows_one(a: BoardV1, b: BoardV1, v: BoardView)
    requires
        a.shows(v),
        b.shows(v),
    ensures
        a == b,
{
    assert forall|y: int| 0 <= y < 9 implies a.cells[y] == b.cells[y] by {
        assert forall|x: int| 0 <= x < 9 implies a.cells[y][x] == b.cells[y][x] by {
            assert(a.cells[y][x] == cell_of(v, x, y));
            assert(b.cells[y][x] == cell_of(v, x, y));
        }
        assert(a.cells[y] =~= b.cells[y]);
    }
    assert(a.cells =~= b.cells);
}

impl From<WallState> for State {
    fn from(s: WallState) -> (r: State) {
        match s {
            WallState::Open => State::Open,
            WallState::Wall => State::Occupied,
        }
    }
}

impl FromSpecImpl<WallState> for State {
    open spec fn obeys_from_spec() -> bool {
        true
    }

    open spec fn from_spec(s: WallState) -> State {
        match s {
            WallState::Open => State::Open,
            WallState::Wall => State::Occupied,
        }
    }
}

impl From<State> for WallState {
    fn from(s: State) -> (r: WallState) {
        match s {
            State::Open => WallState::Open,
            State::Occupied => WallState::Wall,
        }
    }
}

impl FromSpecImpl<State> for WallState {
    open spec fn obeys_from_spec() -> bool {
        true
    }

    open spec fn from_spec(s: State) -> WallState {
        match s {
            State::Open => WallState::Open,
            State::Occupied => WallState::Wall,
        }
    }
}

} // verus!
