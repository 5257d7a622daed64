//! A game as a host program drives it: players, directions and wall
//! kinds are small numbers, and every answer is a number or a flag.

use vstd::prelude::*;
use crate::bitpacked::BoardV2;
use crate::moves::{on_board, Direction, Move, Orientation, Player};
use crate::rules::{BoardView, Turn};

verus! {

/// The player that a host's number stands for: 1 or 2.
pub open spec fn player_of(n: u8) -> Player {
    if n == 1 {
        Player::Player1
    } else {
        Player::Player2
    }
}

/// The number of a player: 1 or 2.
pub open spec fn number_of(p: Player) -> u8 {
    match p {
        Player::Player1 => 1,
        Player::Player2 => 2,
    }
}

/// The wall kind that a host's number stands for: 0 is horizontal, 1 is
/// vertical.
pub open spec fn orientation_of(n: u8) -> Option<Orientation> {
    if n == 0 {
        Some(Orientation::Horizontal)
    } else if n == 1 {
        Some(Orientation::Vertical)
    } else {
        None
    }
}

/// The direction that a host's number stands for: 0 is up, 1 down, 2
/// left, 3 right.
pub open spec fn direction_of(n: u8) -> Option<Direction> {
    if n == 0 {
        Some(Direction::Up)
    } else if n == 1 {
        Some(Direction::Down)
    } else if n == 2 {
        Some(Direction::Left)
    } else if n == 3 {
        Some(Direction::Right)
    } else {
        None
    }
}

/// The direction of the one step that leads from `from` to `to`, if the
/// two cells are neighbours on the board.
pub open spec fn direction_between(from: (int, int), to: (int, int)) -> Option<Direction> {
    if !on_board(to) {
        None
    } else if Direction::Up.step(from) == to {
        Some(Direction::Up)
    } else if Direction::Down.step(from) == to {
        Some(Direction::Down)
    } else if Direction::Left.step(from) == to {
        Some(Direction::Left)
    } else if Direction::Right.step(from) == to {
        Some(Direction::Right)
    } else {
        None
    }
}

/// A game between a host's two players. The host may have the players
/// change seats: then its player 1 plays the board's player 2.
#[derive(Clone, Copy)]
pub struct Game {
    board: BoardV2,
    current_player: Player,
    swapped: bool,
}

fn wall_kind(orientation: u8) -> (r: Option<Orientation>)
    ensures
        r == orientation_of(orientation),
{
    match orientation {
        0 => Some(Orientation::Horizontal),
        1 => Some(Orientation::Vertical),
        _ => None,
    }
}

fn heading(direction: u8) -> (r: Option<Direction>)
    ensures
        r == direction_of(direction),
{
    match direction {
        0 => Some(Direction::Up),
        1 => Some(Direction::Down),
        2 => Some(Direction::Left),
        3 => Some(Direction::Right),
        _ => None,
    }
}

impl Game {
    /// The board and the player to move.
    pub closed spec fn turn(&self) -> Turn {
        Turn { board: self.board@, player: self.current_player }
    }

    /// The players have changed seats.
    pub closed spec fn seats_swapped(&self) -> bool {
        self.swapped
    }

    /// The board's player that plays for the host's player `n`.
    pub open spec fn seat(&self, n: u8) -> Player {
        if self.seats_swapped() {
            player_of(n).opponent()
        } else {
            player_of(n)
        }
    }

    /// The game after the player to move has made `mv`, if the move is
    /// legal; else the game as it is.
    pub open spec fn played(&self, mv: Move) -> Turn {
        if self.turn().board.legal(self.turn().player, mv) {
            self.turn().after(mv)
        } else {
            self.turn()
        }
    }

    /// A game at its start: player 1 to move, everybody in the own seat.
    pub fn new() -> (r: Game)
        ensures
            r.turn() == (Turn { board: BoardView::start(), player: Player::Player1 }),
            !r.seats_swapped(),
    {
        Game { board: BoardV2::empty(), current_player: Player::Player1, swapped: false }
    }

    /// Has the players change seats.
    pub fn swap_players(&mut self)
        ensures
            final(self).seats_swapped() == !old(self).seats_swapped(),
            final(self).turn() == old(self).turn(),
    {
        self.swapped = !self.swapped;
    }

    /// Whether the players have changed seats.
    pub fn is_swapped(&self) -> (r: bool)
        ensures
            r == self.seats_swapped(),
    {
        self.swapped
    }

    /// The board.
    pub fn board(&self) -> (r: &BoardV2)
        ensures
            r@ == self.turn().board,
    {
        &self.board
    }

    fn map_player(&self, player: u8) -> (r: Player)
        requires
            player == 1 || player == 2,
        ensures
            r == self.seat(player),
    {
        let player = if player == 1 {
            Player::Player1
        } else {
            Player::Player2
        };
        if self.swapped {
            player.other()
        } else {
            player
        }
    }

    /// Makes a move for the player to move if the move is legal, and
    /// says whether it was.
    pub fn apply_move(&mut self, mov: &Move) -> (r: bool)
        ensures
            r == old(self).turn().board.legal(old(self).turn().player, *mov),
            final(self).turn() == old(self).played(*mov),
            final(self).seats_swapped() == old(self).seats_swapped(),
    {
        if self.board.is_legal(self.current_player, mov) {
            if self.board.apply_move(mov, self.current_player).is_ok() {
                self.current_player = self.current_player.other();
                return true;
            }
        }
        false
    }

    /// Places a wall for the player to move if that is legal, and says
    /// whether it was. A number that stands for no wall kind is refused.
    pub fn add_wall(&mut self, x: u8, y: u8, orientation: u8) -> (r: bool)
        ensures
            final(self).seats_swapped() == old(self).seats_swapped(),
            match orientation_of(orientation) {
                Some(o) => {
                    let mv = Move::AddWall { orientation: o, location: (x, y) };
                    r == old(self).turn().board.legal(old(self).turn().player, mv) && final(self).turn() == old(self).played(mv)
                },
                None => !r && final(self).turn() == old(self).turn(),
            },
    {
        match wall_kind(orientation) {
            Some(o) => self.apply_move(&Move::AddWall { orientation: o, location: (x, y) }),
            None => false,
        }
    }

    /// The walls that the host's player `player` may still place.
    pub fn available_walls(&self, player: u8) -> (r: u8)
        requires
            player == 1 || player == 2,
        ensures
            r == self.turn().board.walls_left(self.seat(player)),
    {
        self.board.available_walls(self.map_player(player))
    }

    /// Whether the player to move may place this wall.
    pub fn can_add_wall(&self, x: u8, y: u8, orientation: u8) -> (r: bool)
        ensures
            r == match orientation_of(orientation) {
                Some(o) => self.turn().board.legal(
                    self.turn().player,
                    Move::AddWall { orientation: o, location: (x, y) },
                ),
                None => false,
            },
    {
        match wall_kind(orientation) {
            Some(o) => self.board.is_legal(self.current_player, &Move::AddWall { orientation: o, location: (x, y) }),
            None => false,
        }
    }

    fn direction_to(&self, new_location: (u8, u8)) -> (r: Option<Direction>)
        ensures
            r == direction_between(
                self.turn().board.position(self.turn().player),
                (new_location.0 as int, new_location.1 as int),
            ),
    {
        let here = self.board.player_location(self.current_player);
        let dirs = [Direction::Up, Direction::Down, Direction::Left, Direction::Right];
        let mut i: usize = 0;
        while i < 4
            invariant
                i <= 4,
                dirs@ == seq![Direction::Up, Direction::Down, Direction::Left, Direction::Right],
                (here.0 as int, here.1 as int) == self.turn().board.position(self.turn().player),
                forall|j: int|
                    0 <= j < i ==> !(on_board((new_location.0 as int, new_location.1 as int)) && (#[trigger] dirs@[j]).step(
                        (here.0 as int, here.1 as int),
                    ) == (new_location.0 as int, new_location.1 as int)),
            decreases 4 - i,
        {
            let d = dirs[i];
            match d.shift(here) {
                Some(nl) => {
                    if nl.0 == new_location.0 && nl.1 == new_location.1 {
                        return Some(d);
                    }
                },
                None => {},
            }
            i = i + 1;
        }
        proof {
            assert(dirs@[0] == Direction::Up);
            assert(dirs@[1] == Direction::Down);
            assert(dirs@[2] == Direction::Left);
            assert(dirs@[3] == Direction::Right);
        }
        None
    }

    /// Whether the player to move may step onto `new_location`: the cell
    /// is a neighbour of the token's, and the step is legal.
    pub fn can_move_to(&self, new_location: (u8, u8)) -> (r: bool)
        ensures
            r == match direction_between(
                self.turn().board.position(self.turn().player),
                (new_location.0 as int, new_location.1 as int),
            ) {
                Some(d) => self.turn().board.legal(self.turn().player, Move::MoveToken(d)),
                None => false,
            },
    {
        match self.direction_to(new_location) {
            Some(direction) => self.board.is_legal(self.current_player, &Move::MoveToken(direction)),
            None => false,
        }
    }

    /// The distance of the host's player `player` to the goal row, or -1
    /// where there is no way.
    pub fn distance_to_goal(&self, player: u8) -> (r: i8)
        requires
            player == 1 || player == 2,
        ensures
            r == match self.turn().board.distance(self.seat(player)) {
                Some(d) => d as int,
                None => -1,
            },
    {
        match self.board.distance_to_goal(self.map_player(player)) {
            Some(a) => a as i8,
            None => -1,
        }
    }

    /// Steps the token of the player to move onto `new_location` if
    /// that is a legal step, and says whether it was.
    pub fn move_token_to(&mut self, new_location: (u8, u8)) -> (r: bool)
        ensures
            final(self).seats_swapped() == old(self).seats_swapped(),
            match direction_between(
                old(self).turn().board.position(old(self).turn().player),
                (new_location.0 as int, new_location.1 as int),
            ) {
                Some(d) => r == old(self).turn().board.legal(old(self).turn().player, Move::MoveToken(d))
                    && final(self).turn() == old(self).played(Move::MoveToken(d)),
                None => !r && final(self).turn() == old(self).turn(),
            },
    {
        match self.direction_to(new_location) {
            Some(direction) => self.apply_move(&Move::MoveToken(direction)),
            None => false,
        }
    }

    /// Steps the token of the player to move if that is legal, and says
    /// whether it was. A number that stands for no direction is refused.
    pub fn move_token(&mut self, direction: u8) -> (r: bool)
        ensures
            final(self).seats_swapped() == old(self).seats_swapped(),
            match direction_of(direction) {
                Some(d) => r == old(self).turn().board.legal(old(self).turn().player, Move::MoveToken(d))
                    && final(self).turn() == old(self).played(Move::MoveToken(d)),
                None => !r && final(self).turn() == old(self).turn(),
            },
    {
        match heading(direction) {
            Some(d) => self.apply_move(&Move::MoveToken(d)),
            None => false,
        }
    }

    /// The host's number of the player to move.
    pub fn current_player(&self) -> (r: u8)
        ensures
            (r == 1 || r == 2) && self.seat(r) == self.turn().player,
    {
        let mut player = self.current_player;
        if self.swapped {
            player = player.other();
        }
        match player {
            Player::Player1 => 1,
            Player::Player2 => 2,
        }
    }

    /// The cell of the token of the host's player `player`.
    pub fn get_location(&self, player: u8) -> (r: (u8, u8))
        requires
            player == 1 || player == 2,
        ensures
            (r.0 as int, r.1 as int) == self.turn().board.position(self.seat(player)),
    {
        self.board.player_location(self.map_player(player))
    }

    /// What stands at an intersection: 0 for nothing, 1 for a
    /// horizontal wall, 2 for a vertical one.
    pub fn get_wall_status(&self, x: u8, y: u8) -> (r: u8)
        ensures
            r == (if self.turn().board.horizontal.contains((x as int, y as int)) {
                1u8
            } else if self.turn().board.vertical.contains((x as int, y as int)) {
                2u8
            } else {
                0u8
            }),
    {
        match self.board.get_wall_state((x, y)) {
            None => 0,
            Some(Orientation::Horizontal) => 1,
            Some(Orientation::Vertical) => 2,
        }
    }

    /// Whether a token on `(x, y)` can step in the direction that the
    /// number stands for; a number that stands for none gives `false`.
    pub fn is_passible(&self, x: u8, y: u8, direction: u8) -> (r: bool)
        ensures
            r == match direction_of(direction) {
                Some(d) => self.turn().board.passable((x as int, y as int), d),
                None => false,
            },
    {
        match heading(direction) {
            Some(d) => self.board.is_passible((x, y), d),
            None => false,
        }
    }
}

} // verus!
