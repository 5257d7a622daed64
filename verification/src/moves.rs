//! Players, directions and moves.

use vstd::prelude::*;

verus! {

/// One of the two players. Player 1 starts at `(4, 0)` and runs for row 8;
/// player 2 starts at `(4, 8)` and runs for row 0.
#[derive(Debug, Copy, Clone, PartialEq, Eq, Hash, Structural)]
pub enum Player {
    Player1,
    Player2,
}

/// The axis of a wall.
#[derive(Debug, Copy, Clone, PartialEq, Eq, Hash, Structural)]
pub enum Orientation {
    Horizontal,
    Vertical,
}

/// One step on the grid. `Up` lowers `y`, `Down` raises it.
#[derive(Debug, Copy, Clone, PartialEq, Eq, Hash, Structural)]
pub enum Direction {
    Up,
    Down,
    Left,
    Right,
}

/// A move: place a wall at an intersection, or step the token.
#[derive(Debug, Copy, Clone, PartialEq, Eq, Hash)]
pub enum Move {
    AddWall { orientation: Orientation, location: (u8, u8) },
    MoveToken(Direction),
}

/// Why a mutation of the board was refused.
#[derive(Debug, Copy, Clone, PartialEq, Eq, Hash, Structural)]
pub enum Error {
    /// The anchor already carries a wall.
    WallOverlap,
    /// The player has no wall left to place.
    NoWallsLeft,
    /// The anchor is not one of the 8x8 intersections.
    OutOfBounds,
    /// The step leaves the board or crosses a wall.
    BlockedOrOffBoard,
}

impl Move {
    /// The move that places a wall of the given kind at `(x, y)`.
    pub fn add_wall(x: u8, y: u8, orientation: Orientation) -> (r: Move)
        ensures
            r == (Move::AddWall { orientation, location: (x, y) }),
    {
        Move::AddWall { orientation, location: (x, y) }
    }

    /// The move that steps the token.
    pub fn move_token(direction: Direction) -> (r: Move)
        ensures
            r == Move::MoveToken(direction),
    {
        Move::MoveToken(direction)
    }
}

/// A cell is on the board when both coordinates lie in `0..9`.
pub open spec fn on_board(c: (int, int)) -> bool {
    0 <= c.0 < 9 && 0 <= c.1 < 9
}

/// An intersection can anchor a wall when both coordinates lie in `0..8`.
pub open spec fn is_anchor(a: (int, int)) -> bool {
    0 <= a.0 < 8 && 0 <= a.1 < 8
}

impl Player {
    /// The row this player has to reach.
    pub open spec fn goal_row(self) -> int {
        match self {
            Player::Player1 => 8,
            Player::Player2 => 0,
        }
    }

    /// The other player.
    pub open spec fn opponent(self) -> Player {
        match self {
            Player::Player1 => Player::Player2,
            Player::Player2 => Player::Player1,
        }
    }

    /// The opponent.
    pub fn other(&self) -> (r: Player)
        ensures
            r == self.opponent(),
    {
        match self {
            Player::Player1 => Player::Player2,
            Player::Player2 => Player::Player1,
        }
    }
}

impl Orientation {
    /// The other axis.
    pub open spec fn flipped(self) -> Orientation {
        match self {
            Orientation::Horizontal => Orientation::Vertical,
            Orientation::Vertical => Orientation::Horizontal,
        }
    }

    /// The other axis.
    pub fn other(self) -> (r: Orientation)
        ensures
            r == self.flipped(),
    {
        match self {
            Orientation::Horizontal => Orientation::Vertical,
            Orientation::Vertical => Orientation::Horizontal,
        }
    }
}

impl Direction {
    /// The cell one step from `c`, on the board or not.
    pub open spec fn step(self, c: (int, int)) -> (int, int) {
        match self {
            Direction::Up => (c.0, c.1 - 1),
            Direction::Down => (c.0, c.1 + 1),
            Direction::Left => (c.0 - 1, c.1),
            Direction::Right => (c.0 + 1, c.1),
        }
    }

    /// The direction that leads back.
    pub open spec fn reverse(self) -> Direction {
        match self {
            Direction::Up => Direction::Down,
            Direction::Down => Direction::Up,
            Direction::Left => Direction::Right,
            Direction::Right => Direction::Left,
        }
    }

    /// The neighbouring cell in this direction, if it is on the board.
    pub fn shift(&self, position: (u8, u8)) -> (r: Option<(u8, u8)>)
        ensures
            on_board(self.step((position.0 as int, position.1 as int))) ==> r == Some(
                (
                    self.step((position.0 as int, position.1 as int)).0 as u8,
                    self.step((position.0 as int, position.1 as int)).1 as u8,
                ),
            ),
            !on_board(self.step((position.0 as int, position.1 as int))) ==> r.is_none(),
    {
        let (x, y) = position;
        match self {
            Direction::Up => if 0 < y && y <= 9 && x < 9 {
                Some((x, y - 1))
            } else {
                None
            },
            Direction::Down => if y < 8 && x < 9 {
                Some((x, y + 1))
            } else {
                None
            },
            Direction::Left => if 0 < x && x <= 9 && y < 9 {
                Some((x - 1, y))
            } else {
                None
            },
            Direction::Right => if x < 8 && y < 9 {
                Some((x + 1, y))
            } else {
                None
            },
        }
    }
}

/// The `i`-th of the 132 moves there are: the four steps, then the
/// horizontal walls, then the vertical ones, each kind row by row.
pub open spec fn candidate(i: int) -> Move {
    if i == 0 {
        Move::MoveToken(Direction::Up)
    } else if i == 1 {
        Move::MoveToken(Direction::Down)
    } else if i == 2 {
        Move::MoveToken(Direction::Left)
    } else if i == 3 {
        Move::MoveToken(Direction::Right)
    } else {
        Move::AddWall {
            orientation: if i - 4 < 64 {
                Orientation::Horizontal
            } else {
                Orientation::Vertical
            },
            location: (((i - 4) % 8) as u8, (((i - 4) / 8) % 8) as u8),
        }
    }
}

/// Every move there is, in the order in which ties are broken.
pub open spec fn candidates() -> Seq<Move> {
    Seq::new(132, |i: int| candidate(i))
}

/// Every move there is: four steps and 128 walls.
pub fn all_moves() -> (r: Vec<Move>)
    ensures
        r@ == candidates(),
{
    let mut r: Vec<Move> = Vec::new();
    r.push(Move::MoveToken(Direction::Up));
    r.push(Move::MoveToken(Direction::Down));
    r.push(Move::MoveToken(Direction::Left));
    r.push(Move::MoveToken(Direction::Right));
    let mut k: u8 = 0;
    while k < 128
        invariant
            k <= 128,
            r@.len() == 4 + k,
            forall|i: int| 0 <= i < 4 + k ==> r@[i] == candidate(i),
        decreases 128 - k,
    {
        let orientation = if k < 64 {
            Orientation::Horizontal
        } else {
            Orientation::Vertical
        };
        r.push(Move::AddWall { orientation, location: (k % 8, (k / 8) % 8) });
        k = k + 1;
    }
    assert(r@ =~= candidates());
    r
}

} // verus!
