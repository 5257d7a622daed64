//! What a drawing of the board shows, and what the keys do to the move
//! that a player is making up. The drawing itself and the reading of
//! keys are left to the program.

use vstd::prelude::*;
use crate::bitpacked::BoardV2;
use crate::moves::{on_board, Direction, Move, Orientation, Player};
use crate::v1::{Cell, RegularCell, WallState};

verus! {

/// How a side of a cell, or an intersection, is drawn.
#[derive(Clone, Copy, PartialEq, Eq, Debug, Structural)]
pub enum DisplayWallState {
    /// A wall stands here.
    Wall,
    /// Nothing stands here.
    Open,
    /// The wall that the player is making up would stand here.
    Candidate,
    /// The wall that the player is making up would run into a wall here.
    Collision,
}

pub type DisplayCell = Cell<DisplayWallState>;

/// A key, as far as the game tells keys apart.
#[derive(Clone, Copy, PartialEq, Eq, Debug, Structural)]
pub enum Key {
    /// Leave the game.
    Quit,
    /// Make the move.
    Confirm,
    /// Change between a wall and a step.
    Toggle,
    /// Turn the wall.
    Rotate,
    Left,
    Right,
    Up,
    Down,
    /// Any other key.
    Other,
}

/// What a key leads to.
#[derive(Clone, Copy, PartialEq, Eq, Debug)]
pub enum Prompt {
    /// The player has made this move, and it is legal.
    Done(Move),
    /// The player leaves.
    Quit,
    /// The player goes on making up the move, which is now this one.
    Again(Move),
}

impl DisplayWallState {
    /// How a state of the board is drawn.
    pub open spec fn plain(o: WallState) -> DisplayWallState {
        match o {
            WallState::Wall => DisplayWallState::Wall,
            WallState::Open => DisplayWallState::Open,
        }
    }

    /// How a place is drawn on which the wall in the making would stand.
    pub open spec fn marked(self) -> DisplayWallState {
        if self == DisplayWallState::Open {
            DisplayWallState::Candidate
        } else {
            DisplayWallState::Collision
        }
    }

    /// How a state of the board is drawn.
    pub fn from_wall_state(o: WallState) -> (r: DisplayWallState)
        ensures
            r == DisplayWallState::plain(o),
    {
        match o {
            WallState::Wall => DisplayWallState::Wall,
            WallState::Open => DisplayWallState::Open,
        }
    }

    fn mark(self) -> (r: DisplayWallState)
        ensures
            r == self.marked(),
    {
        match self {
            DisplayWallState::Open => DisplayWallState::Candidate,
            _ => DisplayWallState::Collision,
        }
    }
}

/// The wall in the making would close the right side of the cell
/// `(x, y)`: it is vertical and anchored at the cell or at the one above.
pub open spec fn covers_right(candidate: Option<Move>, x: int, y: int) -> bool {
    candidate matches Some(Move::AddWall { orientation: Orientation::Vertical, location }) && x == location.0 && (y
        == location.1 || y == location.1 + 1)
}

/// The wall in the making would close the lower side of the cell
/// `(x, y)`: it is horizontal and anchored at the cell or at the one to
/// its left.
pub open spec fn covers_bottom(candidate: Option<Move>, x: int, y: int) -> bool {
    candidate matches Some(Move::AddWall { orientation: Orientation::Horizontal, location }) && y == location.1 && (
    x == location.0 || x == location.0 + 1)
}

/// The wall in the making would be anchored at the lower right corner
/// of the cell `(x, y)`.
pub open spec fn covers_joint(candidate: Option<Move>, x: int, y: int) -> bool {
    candidate matches Some(Move::AddWall { orientation, location }) && x == location.0 && y == location.1
}

/// How the cell `(x, y)` is drawn while the player makes up a move.
pub open spec fn drawn(cell: RegularCell, x: int, y: int, candidate: Option<Move>) -> DisplayCell {
    Cell {
        right: if covers_right(candidate, x, y) {
            DisplayWallState::plain(cell.right).marked()
        } else {
            DisplayWallState::plain(cell.right)
        },
        bottom: if covers_bottom(candidate, x, y) {
            DisplayWallState::plain(cell.bottom).marked()
        } else {
            DisplayWallState::plain(cell.bottom)
        },
        joint: if covers_joint(candidate, x, y) {
            DisplayWallState::plain(cell.joint).marked()
        } else {
            DisplayWallState::plain(cell.joint)
        },
    }
}

/// How a cell is drawn: as the board has it, but for the places on
/// which the wall in the making would stand.
pub fn cell_display(cell: &RegularCell, at: (u8, u8), candidate: Option<&Move>) -> (r: DisplayCell)
    ensures
        r == drawn(
            *cell,
            at.0 as int,
            at.1 as int,
            match candidate {
                Some(m) => Some(*m),
                None => None,
            },
        ),
{
    let (x, y) = at;
    let mut shown = DisplayCell {
        right: DisplayWallState::from_wall_state(cell.right),
        bottom: DisplayWallState::from_wall_state(cell.bottom),
        joint: DisplayWallState::from_wall_state(cell.joint),
    };
    match candidate {
        Some(Move::AddWall { orientation, location }) => {
            let (cx, cy) = *location;
            match orientation {
                Orientation::Vertical => {
                    if x == cx && (y == cy || (cy < 255 && y == cy + 1)) {
                        shown.right = shown.right.mark();
                    }
                },
                Orientation::Horizontal => {
                    if y == cy && (x == cx || (cx < 255 && x == cx + 1)) {
                        shown.bottom = shown.bottom.mark();
                    }
                },
            }
            if x == cx && y == cy {
                shown.joint = shown.joint.mark();
            }
        },
        _ => {},
    }
    shown
}

/// The cell on which the token would come to stand, for a step that is
/// legal; nothing for a wall or for a step that is not.
pub fn candidate_cell(board: &BoardV2, player: Player, candidate: &Move) -> (r: Option<(u8, u8)>)
    ensures
        match *candidate {
            Move::MoveToken(d) => if board@.legal(player, *candidate) {
                r.is_some() && (r.unwrap().0 as int, r.unwrap().1 as int) == d.step(board@.position(player))
            } else {
                r.is_none()
            },
            Move::AddWall { .. } => r.is_none(),
        },
{
    match candidate {
        Move::MoveToken(d) => {
            if board.is_legal(player, candidate) {
                d.shift(board.player_location(player))
            } else {
                None
            }
        },
        _ => None,
    }
}

/// The move in the making after a key that changes it. The toggle
/// key turns a wall into a step up and a step into a horizontal wall in
/// the middle of the board; the rotate key turns a wall; an arrow moves
/// a wall by one intersection, as far as the grid goes, and points a
/// step its way. Other keys change nothing.
pub open spec fn adjusted(candidate: Move, key: Key) -> Move {
    match candidate {
        Move::AddWall { orientation, location } => match key {
            Key::Toggle => Move::MoveToken(Direction::Up),
            Key::Rotate => Move::AddWall { orientation: orientation.flipped(), location },
            Key::Left => Move::AddWall {
                orientation,
                location: (
                    if location.0 > 0 {
                        (location.0 - 1) as u8
                    } else {
                        0u8
                    },
                    location.1,
                ),
            },
            Key::Right => Move::AddWall {
                orientation,
                location: (
                    if location.0 < 7 {
                        (location.0 + 1) as u8
                    } else {
                        7u8
                    },
                    location.1,
                ),
            },
            Key::Up => Move::AddWall {
                orientation,
                location: (
                    location.0,
                    if location.1 > 0 {
                        (location.1 - 1) as u8
                    } else {
                        0u8
                    },
                ),
            },
            Key::Down => Move::AddWall {
                orientation,
                location: (
                    location.0,
                    if location.1 < 7 {
                        (location.1 + 1) as u8
                    } else {
                        7u8
                    },
                ),
            },
            _ => candidate,
        },
        Move::MoveToken(d) => match key {
            Key::Toggle => Move::AddWall { orientation: Orientation::Horizontal, location: (4u8, 4u8) },
            Key::Left => Move::MoveToken(Direction::Left),
            Key::Right => Move::MoveToken(Direction::Right),
            Key::Up => Move::MoveToken(Direction::Up),
            Key::Down => Move::MoveToken(Direction::Down),
            _ => candidate,
        },
    }
}

/// The move in the making after a key that changes it.
pub fn adjust(candidate: Move, key: Key) -> (r: Move)
    ensures
        r == adjusted(candidate, key),
{
    match candidate {
        Move::AddWall { orientation, location } => {
            let (x, y) = location;
            match key {
                Key::Toggle => Move::MoveToken(Direction::Up),
                Key::Rotate => Move::AddWall { orientation: orientation.other(), location },
                Key::Left => Move::AddWall {
                    orientation,
                    location: (
                        if x > 0 {
                            x - 1
                        } else {
                            0
                        },
                        y,
                    ),
                },
                Key::Right => Move::AddWall {
                    orientation,
                    location: (
                        if x < 7 {
                            x + 1
                        } else {
                            7
                        },
                        y,
                    ),
                },
                Key::Up => Move::AddWall {
                    orientation,
                    location: (
                        x,
                        if y > 0 {
                            y - 1
                        } else {
                            0
                        },
                    ),
                },
                Key::Down => Move::AddWall {
                    orientation,
                    location: (
                        x,
                        if y < 7 {
                            y + 1
                        } else {
                            7
                        },
                    ),
                },
                _ => candidate,
            }
        },
        Move::MoveToken(_) => match key {
            Key::Toggle => Move::AddWall { orientation: Orientation::Horizontal, location: (4, 4) },
            Key::Left => Move::MoveToken(Direction::Left),
            Key::Right => Move::MoveToken(Direction::Right),
            Key::Up => Move::MoveToken(Direction::Up),
            Key::Down => Move::MoveToken(Direction::Down),
            _ => candidate,
        },
    }
}

/// What a key leads to while a player makes up a move: the quit key
/// ends it; the confirm key makes the move if it is legal and changes
/// nothing if it is not; every other key changes the move, or nothing.
pub fn on_key(board: &BoardV2, player: Player, candidate: Move, key: Key) -> (r: Prompt)
    ensures
        r == match key {
            Key::Quit => Prompt::Quit,
            Key::Confirm => if board@.legal(player, candidate) {
                Prompt::Done(candidate)
            } else {
                Prompt::Again(candidate)
            },
            _ => Prompt::Again(adjusted(candidate, key)),
        },
{
    match key {
        Key::Quit => Prompt::Quit,
        Key::Confirm => {
            if board.is_legal(player, &candidate) {
                Prompt::Done(candidate)
            } else {
                Prompt::Again(candidate)
            }
        },
        _ => Prompt::Again(adjust(candidate, key)),
    }
}

} // verus!
