//! A game on record, to be played back move by move.

use vstd::prelude::*;
use crate::moves::{Direction, Move, Orientation};

verus! {

/// A record of moves and the number of those played back already.
pub struct Replay(pub usize, pub Vec<Move>);

/// The moves of the first game on record: nine steps, then eleven walls.
pub open spec fn game_one() -> Seq<Move> {
    seq![
        Move::MoveToken(Direction::Down),
        Move::MoveToken(Direction::Up),
        Move::MoveToken(Direction::Down),
        Move::MoveToken(Direction::Up),
        Move::MoveToken(Direction::Down),
        Move::MoveToken(Direction::Up),
        Move::MoveToken(Direction::Down),
        Move::MoveToken(Direction::Up),
        Move::MoveToken(Direction::Down),
        Move::AddWall { orientation: Orientation::Horizontal, location: (4u8, 5u8) },
        Move::AddWall { orientation: Orientation::Horizontal, location: (4u8, 3u8) },
        Move::AddWall { orientation: Orientation::Horizontal, location: (2u8, 5u8) },
        Move::AddWall { orientation: Orientation::Horizontal, location: (2u8, 3u8) },
        Move::AddWall { orientation: Orientation::Vertical, location: (5u8, 5u8) },
        Move::AddWall { orientation: Orientation::Horizontal, location: (6u8, 3u8) },
        Move::AddWall { orientation: Orientation::Horizontal, location: (0u8, 5u8) },
        Move::AddWall { orientation: Orientation::Vertical, location: (1u8, 4u8) },
        Move::AddWall { orientation: Orientation::Horizontal, location: (4u8, 4u8) },
        Move::AddWall { orientation: Orientation::Vertical, location: (7u8, 7u8) },
        Move::AddWall { orientation: Orientation::Vertical, location: (6u8, 7u8) },
    ]
}

impl Replay {
    /// The next move of the record.
    pub fn next(&mut self) -> (r: Move)
        requires
            old(self).0 < old(self).1@.len(),
        ensures
            r == old(self).1@[old(self).0 as int],
            final(self).0 == old(self).0 + 1,
            final(self).1@ == old(self).1@,
    {
        let len = self.1.len();
        let next = self.1[self.0];
        self.0 = self.0 + 1;
        next
    }

    /// The first game on record, nothing of it played back yet.
    pub fn one() -> (r: Replay)
        ensures
            r.0 == 0,
            r.1@ == game_one(),
    {
        let mut moves: Vec<Move> = Vec::new();
        moves.push(Move::MoveToken(Direction::Down));
        moves.push(Move::MoveToken(Direction::Up));
        moves.push(Move::MoveToken(Direction::Down));
        moves.push(Move::MoveToken(Direction::Up));
        moves.push(Move::MoveToken(Direction::Down));
        moves.push(Move::MoveToken(Direction::Up));
        moves.push(Move::MoveToken(Direction::Down));
        moves.push(Move::MoveToken(Direction::Up));
        moves.push(Move::MoveToken(Direction::Down));
        moves.push(Move::AddWall { orientation: Orientation::Horizontal, location: (4, 5) });
        moves.push(Move::AddWall { orientation: Orientation::Horizontal, location: (4, 3) });
        moves.push(Move::AddWall { orientation: Orientation::Horizontal, location: (2, 5) });
        moves.push(Move::AddWall { orientation: Orientation::Horizontal, location: (2, 3) });
        moves.push(Move::AddWall { orientation: Orientation::Vertical, location: (5, 5) });
        moves.push(Move::AddWall { orientation: Orientation::Horizontal, location: (6, 3) });
        moves.push(Move::AddWall { orientation: Orientation::Horizontal, location: (0, 5) });
        moves.push(Move::AddWall { orientation: Orientation::Vertical, location: (1, 4) });
        moves.push(Move::AddWall { orientation: Orientation::Horizontal, location: (4, 4) });
        moves.push(Move::AddWall { orientation: Orientation::Vertical, location: (7, 7) });
        moves.push(Move::AddWall { orientation: Orientation::Vertical, location: (6, 7) });
        assert(moves@ =~= game_one());
        Replay(0, moves)
    }
}

} // verus!
