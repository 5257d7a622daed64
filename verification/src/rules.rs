//! The game as mathematics: what a board is, which steps are open, how far
//! a goal row lies, and which moves are legal.
//!
//! Everything here is specification. The executable board states its
//! contracts over [`BoardView`].

use vstd::prelude::*;
use crate::moves::{on_board, is_anchor, Direction, Error, Move, Orientation, Player};

verus! {

/// The abstract state of a game.
#[verifier::ext_equal]
pub struct BoardView {
    /// Anchors of the horizontal walls.
    pub horizontal: Set<(int, int)>,
    /// Anchors of the vertical walls.
    pub vertical: Set<(int, int)>,
    /// Cell of player 1's token.
    pub player1: (int, int),
    /// Cell of player 2's token.
    pub player2: (int, int),
    /// Walls player 1 may still place.
    pub walls1: int,
    /// Walls player 2 may still place.
    pub walls2: int,
}

impl BoardView {
    /// The position every game starts from.
    pub open spec fn start() -> BoardView {
        BoardView {
            horizontal: Set::empty(),
            vertical: Set::empty(),
            player1: (4, 0),
            player2: (4, 8),
            walls1: 10,
            walls2: 10,
        }
    }

    /// The cell of the player's token.
    pub open spec fn position(self, player: Player) -> (int, int) {
        match player {
            Player::Player1 => self.player1,
            Player::Player2 => self.player2,
        }
    }

    /// The walls that the player may still place.
    pub open spec fn walls_left(self, player: Player) -> int {
        match player {
            Player::Player1 => self.walls1,
            Player::Player2 => self.walls2,
        }
    }

    /// No wall lies on the border between `c` and the cell to its right.
    /// A vertical wall anchored at `(ax, ay)` closes the right side of
    /// `(ax, ay)` and of `(ax, ay + 1)`.
    pub open spec fn open_right(self, c: (int, int)) -> bool {
        !self.vertical.contains(c) && !self.vertical.contains((c.0, c.1 - 1))
    }

    /// No wall lies on the border between `c` and the cell below it.
    /// A horizontal wall anchored at `(ax, ay)` closes the lower side of
    /// `(ax, ay)` and of `(ax + 1, ay)`.
    pub open spec fn open_down(self, c: (int, int)) -> bool {
        !self.horizontal.contains(c) && !self.horizontal.contains((c.0 - 1, c.1))
    }

    /// No wall lies on the border that a step from `c` in direction `d` crosses.
    pub open spec fn border_open(self, c: (int, int), d: Direction) -> bool {
        match d {
            Direction::Right => self.open_right(c),
            Direction::Down => self.open_down(c),
            Direction::Up => self.open_down((c.0, c.1 - 1)),
            Direction::Left => self.open_right((c.0 - 1, c.1)),
        }
    }

    /// A token on `c` can step in direction `d`: both cells are on the
    /// board and no wall lies between them.
    pub open spec fn passable(self, c: (int, int), d: Direction) -> bool {
        on_board(c) && on_board(d.step(c)) && self.border_open(c, d)
    }

    /// `to` can be reached from `from` in at most `n` steps.
    pub open spec fn reach(self, from: (int, int), to: (int, int), n: nat) -> bool
        decreases n,
    {
        if n == 0 {
            on_board(from) && to == from
        } else {
            self.reach(from, to, (n - 1) as nat)
                || (self.passable(to, Direction::Up) && self.reach(from, Direction::Up.step(to), (n - 1) as nat))
                || (self.passable(to, Direction::Down) && self.reach(from, Direction::Down.step(to), (n - 1) as nat))
                || (self.passable(to, Direction::Left) && self.reach(from, Direction::Left.step(to), (n - 1) as nat))
                || (self.passable(to, Direction::Right) && self.reach(from, Direction::Right.step(to), (n - 1) as nat))
        }
    }

    /// A token can step from `a` to `b`.
    pub open spec fn adjacent(self, a: (int, int), b: (int, int)) -> bool {
        exists|d: Direction| #[trigger] self.passable(a, d) && d.step(a) == b
    }

    /// The cells form a path: the first is on the board, and a token can
    /// step from each to the next.
    pub open spec fn is_path(self, cells: Seq<(int, int)>) -> bool {
        &&& cells.len() >= 1
        &&& on_board(cells[0])
        &&& forall|i: int| 0 <= i < cells.len() - 1 ==> self.adjacent(#[trigger] cells[i], cells[i + 1])
    }

    /// Some cell of the player's goal row lies within `n` steps of the token.
    pub open spec fn goal_within(self, player: Player, n: nat) -> bool {
        exists|x: int| 0 <= x < 9 && #[trigger] self.reach(self.position(player), (x, player.goal_row()), n)
    }

    /// The player's token can get to its goal row at all.
    pub open spec fn can_exit(self, player: Player) -> bool {
        exists|n: nat| self.goal_within(player, n)
    }

    /// `d` is the length of a shortest path from the token to the goal row.
    pub open spec fn is_distance(self, player: Player, d: nat) -> bool {
        self.goal_within(player, d) && forall|m: nat| m < d ==> !self.goal_within(player, m)
    }

    /// The length of a shortest path from the token to the goal row, if
    /// there is a path.
    pub open spec fn distance(self, player: Player) -> Option<nat> {
        if self.can_exit(player) {
            Some(choose|d: nat| self.is_distance(player, d))
        } else {
            None
        }
    }

    /// A wall of this orientation at `a` would touch no wall already
    /// there: the anchor is free of both kinds, and the two neighbouring
    /// anchors along the wall's axis are free of walls of its own kind.
    pub open spec fn wall_fits(self, orientation: Orientation, a: (int, int)) -> bool {
        &&& !self.horizontal.contains(a)
        &&& !self.vertical.contains(a)
        &&& match orientation {
            Orientation::Horizontal => !self.horizontal.contains((a.0 - 1, a.1))
                && !self.horizontal.contains((a.0 + 1, a.1)),
            Orientation::Vertical => !self.vertical.contains((a.0, a.1 - 1))
                && !self.vertical.contains((a.0, a.1 + 1)),
        }
    }

    /// The state after `player` has placed a wall, no questions asked.
    pub open spec fn with_wall(self, player: Player, orientation: Orientation, a: (int, int)) -> BoardView {
        let placed = match orientation {
            Orientation::Horizontal => BoardView { horizontal: self.horizontal.insert(a), ..self },
            Orientation::Vertical => BoardView { vertical: self.vertical.insert(a), ..self },
        };
        match player {
            Player::Player1 => BoardView { walls1: self.walls1 - 1, ..placed },
            Player::Player2 => BoardView { walls2: self.walls2 - 1, ..placed },
        }
    }

    /// The state after `player`'s token has been put on `c`.
    pub open spec fn with_token(self, player: Player, c: (int, int)) -> BoardView {
        match player {
            Player::Player1 => BoardView { player1: c, ..self },
            Player::Player2 => BoardView { player2: c, ..self },
        }
    }

    /// What placing a wall does: it fails for want of walls, for an anchor
    /// off the grid of intersections, or for an occupied anchor, in this
    /// order; else the wall stands and the player has one wall fewer.
    pub open spec fn add_wall(self, player: Player, orientation: Orientation, a: (int, int)) -> Result<BoardView, Error> {
        if self.walls_left(player) <= 0 {
            Err(Error::NoWallsLeft)
        } else if !is_anchor(a) {
            Err(Error::OutOfBounds)
        } else if self.horizontal.contains(a) || self.vertical.contains(a) {
            Err(Error::WallOverlap)
        } else {
            Ok(self.with_wall(player, orientation, a))
        }
    }

    /// What stepping a token does: it fails where the step is not
    /// passable; else the token stands on the neighbouring cell. Whether
    /// the other token is there is not asked.
    pub open spec fn move_token(self, player: Player, d: Direction) -> Result<BoardView, Error> {
        if self.passable(self.position(player), d) {
            Ok(self.with_token(player, d.step(self.position(player))))
        } else {
            Err(Error::BlockedOrOffBoard)
        }
    }

    /// What a move does.
    pub open spec fn apply(self, player: Player, mv: Move) -> Result<BoardView, Error> {
        match mv {
            Move::AddWall { orientation, location } => self.add_wall(
                player,
                orientation,
                (location.0 as int, location.1 as int),
            ),
            Move::MoveToken(d) => self.move_token(player, d),
        }
    }

    /// Legality without the search for exits: the wall can be paid for,
    /// is anchored on the grid and touches no other wall; the step is
    /// passable and does not end on the other token.
    pub open spec fn probably_legal(self, player: Player, mv: Move) -> bool {
        match mv {
            Move::AddWall { orientation, location } => {
                let a = (location.0 as int, location.1 as int);
                self.walls_left(player) >= 1 && is_anchor(a) && self.wall_fits(orientation, a)
            },
            Move::MoveToken(d) => {
                self.passable(self.position(player), d) && d.step(self.position(player))
                    != self.position(player.opponent())
            },
        }
    }

    /// The rule of the game. A wall is legal when it is probably legal
    /// and, once placed, leaves both players a way to their goal rows.
    /// A step is legal when it is passable and the cell is free.
    pub open spec fn legal(self, player: Player, mv: Move) -> bool {
        match mv {
            Move::AddWall { orientation, location } => {
                let a = (location.0 as int, location.1 as int);
                let placed = self.with_wall(player, orientation, a);
                self.probably_legal(player, mv) && placed.can_exit(Player::Player1) && placed.can_exit(
                    Player::Player2,
                )
            },
            Move::MoveToken(_) => self.probably_legal(player, mv),
        }
    }

    /// The player whose token stands on its goal row, player 1 before
    /// player 2.
    pub open spec fn winner(self) -> Option<Player> {
        if self.player1.1 == 8 {
            Some(Player::Player1)
        } else if self.player2.1 == 0 {
            Some(Player::Player2)
        } else {
            None
        }
    }

    /// The game seen from the other side of the board: rows are counted
    /// from the far end, and the two players have changed places.
    pub open spec fn flipped(self) -> BoardView {
        BoardView {
            horizontal: Set::new(|a: (int, int)| self.horizontal.contains((a.0, 7 - a.1))),
            vertical: Set::new(|a: (int, int)| self.vertical.contains((a.0, 7 - a.1))),
            player1: (self.player2.0, 8 - self.player2.1),
            player2: (self.player1.0, 8 - self.player1.1),
            walls1: self.walls2,
            walls2: self.walls1,
        }
    }

    /// No two walls touch: an intersection holds at most one wall, and no
    /// wall starts where a wall of its own kind would run into it.
    pub open spec fn walls_apart(self) -> bool {
        &&& self.horizontal.disjoint(self.vertical)
        &&& forall|a: (int, int)| #[trigger]
            self.horizontal.contains(a) ==> !self.horizontal.contains((a.0 + 1, a.1))
        &&& forall|a: (int, int)| #[trigger]
            self.vertical.contains(a) ==> !self.vertical.contains((a.0, a.1 + 1))
    }

    /// The invariants of a game in progress.
    pub open spec fn valid(self) -> bool {
        &&& 0 <= self.walls1 <= 10
        &&& 0 <= self.walls2 <= 10
        &&& self.horizontal.finite()
        &&& self.vertical.finite()
        &&& self.horizontal.len() + self.vertical.len() == (10 - self.walls1) + (10 - self.walls2)
        &&& forall|a: (int, int)| #[trigger] self.horizontal.contains(a) ==> is_anchor(a)
        &&& forall|a: (int, int)| #[trigger] self.vertical.contains(a) ==> is_anchor(a)
        &&& self.walls_apart()
        &&& on_board(self.player1)
        &&& on_board(self.player2)
        &&& self.player1 != self.player2
        &&& self.can_exit(Player::Player1)
        &&& self.can_exit(Player::Player2)
    }
}

/// A game at some turn: the board, and who is to move.
pub struct Turn {
    pub board: BoardView,
    pub player: Player,
}

impl Turn {
    /// The game after the player to move has made a move that the board
    /// takes.
    pub open spec fn after(self, mv: Move) -> Turn {
        Turn {
            board: match self.board.apply(self.player, mv) {
                Ok(w) => w,
                Err(_) => self.board,
            },
            player: self.player.opponent(),
        }
    }

    /// The game is decided, or has run dry: a token stands on its goal
    /// row, or neither player has a wall left.
    pub open spec fn over(self) -> bool {
        self.board.player1.1 == 8 || self.board.player2.1 == 0 || (self.board.walls1 == 0 && self.board.walls2
            == 0)
    }

    /// The game at its start, player 1 to move.
    pub open spec fn start() -> Turn {
        Turn { board: BoardView::start(), player: Player::Player1 }
    }

    /// The game that a run of moves from the start leads to, each move
    /// made by the player whose turn it is, if every move is legal when
    /// it is made.
    pub open spec fn play(moves: Seq<Move>) -> Option<Turn>
        decreases moves.len(),
    {
        if moves.len() == 0 {
            Some(Turn::start())
        } else {
            match Turn::play(moves.drop_last()) {
                Some(t) => if t.board.legal(t.player, moves.last()) {
                    Some(t.after(moves.last()))
                } else {
                    None
                },
                None => None,
            }
        }
    }
}

} // verus!
