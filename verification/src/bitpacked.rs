//! The bit-packed board: two 64-bit wall sets, two token positions and
//! two wall budgets.

use fxhash::FxHasher64;
use vstd::prelude::*;
use vstd::std_specs::convert::{FromSpecImpl, TryFromSpecImpl};
use crate::bits::{
    anchors, bit_of, lemma_and_commutes, lemma_anchors_empty, lemma_anchors_insert, lemma_anchors_mirror,
    lemma_anchors_tell_word, lemma_mask_union, lemma_mask_zero, lemma_word_union, mirror_rows, wall_bit,
};
use crate::flood::{
    count_set, lemma_count_set_bound, lemma_exit_at_goal, lemma_flood_done, lemma_flood_goal,
    lemma_flood_spread, lemma_flood_start, lemma_flood_wet, Flood,
};
use crate::hashing::{fx_state, fx_step, fx_write_u64, fx_write_u8};
use crate::moves::{all_moves, candidates, is_anchor, on_board, Direction, Error, Move, Orientation, Player};
use crate::paths::{lemma_distance_none, lemma_distance_unique};
use crate::rules::BoardView;
use crate::search::{
    cell_at, lemma_search_advance, lemma_search_exhausted, lemma_search_found, lemma_search_mark,
    lemma_search_start, slot_of, Search, UNSEEN,
};
use crate::text::{decimal, push_blank, push_decimal};

verus! {

/// A cell of the 9x9 grid, held as its index `y * 9 + x`.
#[derive(Debug, Eq, PartialEq, Clone, Copy, Hash)]
pub struct Position(u8);

impl View for Position {
    type V = (int, int);

    /// The cell as `(x, y)`.
    open spec fn view(&self) -> (int, int) {
        (self.index() % 9, self.index() / 9)
    }
}

impl Position {
    #[verifier::type_invariant]
    spec fn on_grid(self) -> bool {
        self.0 < 81
    }

    /// The index of the cell, `y * 9 + x`.
    pub closed spec fn index(self) -> int {
        self.0 as int
    }

    /// The cell with the given index.
    pub fn new_unchecked(idx: u8) -> (p: Position)
        requires
            idx < 81,
        ensures
            p.index() == idx,
    {
        Position(idx)
    }

    /// The cell with the given index, if there is one.
    pub fn new(idx: u8) -> (r: Option<Position>)
        ensures
            idx < 81 ==> r.is_some() && r.unwrap().index() == idx,
            idx >= 81 ==> r.is_none(),
    {
        if idx < 81 {
            Some(Position(idx))
        } else {
            None
        }
    }

    /// The index of the cell, `y * 9 + x`; it is below 81.
    pub fn idx(self) -> (r: u8)
        ensures
            r == self.index(),
            r < 81,
            on_board(self@),
    {
        proof {
            use_type_invariant(&self);
        }
        self.0
    }

    /// The cell one step away, if the step stays on the board.
    pub fn trans(self, d: Direction) -> (r: Option<Position>)
        ensures
            on_board(d.step(self@)) ==> r.is_some() && r.unwrap()@ == d.step(self@),
            !on_board(d.step(self@)) ==> r.is_none(),
    {
        let idx = self.idx();
        match d {
            Direction::Down => {
                if idx + 9 < 9 * 9 {
                    Some(Position::new_unchecked(idx + 9))
                } else {
                    None
                }
            },
            Direction::Up => {
                if idx >= 9 {
                    Some(Position::new_unchecked(idx - 9))
                } else {
                    None
                }
            },
            Direction::Left => {
                if idx % 9 != 0 {
                    Some(Position::new_unchecked(idx - 1))
                } else {
                    None
                }
            },
            Direction::Right => {
                if idx % 9 != 8 {
                    Some(Position::new_unchecked(idx + 1))
                } else {
                    None
                }
            },
        }
    }
}

impl From<Position> for (u8, u8) {
    /// The cell as `(x, y)`.
    fn from(p: Position) -> (r: (u8, u8)) {
        let i = p.idx();
        (i % 9, i / 9)
    }
}

impl FromSpecImpl<Position> for (u8, u8) {
    open spec fn obeys_from_spec() -> bool {
        true
    }

    open spec fn from_spec(p: Position) -> (u8, u8) {
        ((p.index() % 9) as u8, (p.index() / 9) as u8)
    }
}

impl TryFrom<(u8, u8)> for Position {
    type Error = ();

    /// The cell `(x, y)`, if it is on the board.
    fn try_from(c: (u8, u8)) -> (r: Result<Position, ()>) {
        let (x, y) = c;
        if x < 9 && y < 9 {
            Ok(Position(y * 9 + x))
        } else {
            Err(())
        }
    }
}

impl TryFromSpecImpl<(u8, u8)> for Position {
    open spec fn obeys_try_from_spec() -> bool {
        true
    }

    open spec fn try_from_spec(c: (u8, u8)) -> Result<Position, ()> {
        if c.0 < 9 && c.1 < 9 {
            Ok(Position::at((c.0 as int, c.1 as int)))
        } else {
            Err(())
        }
    }
}

impl Position {
    /// The cell as text: its number, counted from 1.
    pub fn to_string(&self) -> (r: String)
        ensures
            r@ == decimal((self.index() + 1) as nat),
    {
        let mut r = String::new();
        push_decimal(&mut r, (self.idx() + 1) as u64);
        assert(r@ =~= decimal((self.index() + 1) as nat));
        r
    }

    /// The position of the cell `c`.
    pub closed spec fn at(c: (int, int)) -> Position {
        Position((c.1 * 9 + c.0) as u8)
    }

    /// A position is told by its view.
    pub proof fn lemma_view_tells_position(self, other: Position)
        requires
            self@ == other@,
        ensures
            self == other,
    {
    }

    /// The view tells the index.
    pub proof fn lemma_index_of_view(self)
        ensures
            self.index() == self@.1 * 9 + self@.0,
    {
    }

    /// On the board, `at` and the view are inverse to each other.
    pub proof fn lemma_at(c: (int, int))
        requires
            on_board(c),
        ensures
            Position::at(c)@ == c,
            Position::at(c).index() == c.1 * 9 + c.0,
    {
    }
}


/// The state of one border or intersection.
#[derive(Debug, Eq, PartialEq, Clone, Copy, Structural)]
pub enum State {
    Open,
    Occupied,
}

/// The game state, bit-packed. Bit `x * 8 + y` of `horizontal` (of
/// `vertical`) is set when a horizontal (a vertical) wall is anchored at
/// the intersection `(x, y)`.
#[derive(Debug, Eq, PartialEq, Clone, Copy, Hash)]
pub struct BoardV2 {
    pub horizontal: u64,
    pub vertical: u64,
    pub player1_pos: Position,
    pub player2_pos: Position,
    pub player1_walls: u8,
    pub player2_walls: u8,
}

impl View for BoardV2 {
    type V = BoardView;

    open spec fn view(&self) -> BoardView {
        BoardView {
            horizontal: anchors(self.horizontal),
            vertical: anchors(self.vertical),
            player1: self.player1_pos@,
            player2: self.player2_pos@,
            walls1: self.player1_walls as int,
            walls2: self.player2_walls as int,
        }
    }
}

impl BoardV2 {
    /// A board is told by its view: two boards that stand for the same
    /// game are the same board.
    pub proof fn lemma_view_tells_board(self, other: BoardV2)
        requires
            self@ == other@,
        ensures
            self == other,
    {
        lemma_anchors_tell_word(self.horizontal, other.horizontal);
        lemma_anchors_tell_word(self.vertical, other.vertical);
        self.player1_pos.lemma_view_tells_position(other.player1_pos);
        self.player2_pos.lemma_view_tells_position(other.player2_pos);
    }

    /// The board at the start of a game.
    pub fn empty() -> (b: BoardV2)
        ensures
            b@ == BoardView::start(),
            b.horizontal == 0,
            b.vertical == 0,
    {
        proof {
            lemma_anchors_empty();
        }
        BoardV2 {
            horizontal: 0,
            vertical: 0,
            player1_pos: Position::new_unchecked(4),
            player2_pos: Position::new_unchecked(76),
            player1_walls: 10,
            player2_walls: 10,
        }
    }

    /// The walls that the player may still place.
    pub fn available_walls(&self, player: Player) -> (r: u8)
        ensures
            r == self@.walls_left(player),
    {
        match player {
            Player::Player1 => self.player1_walls,
            Player::Player2 => self.player2_walls,
        }
    }

    /// The cell of the player's token; it is on the board.
    pub fn player_location(&self, player: Player) -> (r: (u8, u8))
        ensures
            (r.0 as int, r.1 as int) == self@.position(player),
            on_board(self@.position(player)),
    {
        let i = match player {
            Player::Player1 => self.player1_pos.idx(),
            Player::Player2 => self.player2_pos.idx(),
        };
        (i % 9, i / 9)
    }

    /// The player who has won, if the game is over.
    pub fn winner(&self) -> (r: Option<Player>)
        ensures
            r == self@.winner(),
    {
        if self.player_location(Player::Player1).1 == 8 {
            Some(Player::Player1)
        } else if self.player_location(Player::Player2).1 == 0 {
            Some(Player::Player2)
        } else {
            None
        }
    }

    /// The number of the bit that stands for an intersection.
    pub fn bit_idx(p: (u8, u8)) -> (r: Option<u8>)
        ensures
            is_anchor((p.0 as int, p.1 as int)) ==> r == Some((p.0 * 8 + p.1) as u8),
            !is_anchor((p.0 as int, p.1 as int)) ==> r.is_none(),
    {
        let (x, y) = p;
        if x < 8 && y < 8 {
            Some(x * 8 + y)
        } else {
            None
        }
    }

    /// The bit that stands for an intersection.
    pub fn bit_mask(p: (u8, u8)) -> (r: Option<u64>)
        ensures
            is_anchor((p.0 as int, p.1 as int)) ==> r == Some(bit_of((p.0 as int, p.1 as int))),
            !is_anchor((p.0 as int, p.1 as int)) ==> r.is_none(),
    {
        match BoardV2::bit_idx(p) {
            Some(b) => Some(1u64 << (b as u64)),
            None => None,
        }
    }

    /// Puts the player's token on a cell of the board; fails for a cell
    /// off the board, and then changes nothing.
    pub fn set_player_location(&mut self, player: Player, pos: (u8, u8)) -> (r: Result<(), ()>)
        ensures
            on_board((pos.0 as int, pos.1 as int)) ==> r.is_ok() && final(self)@ == old(self)@.with_token(
                player,
                (pos.0 as int, pos.1 as int),
            ),
            !on_board((pos.0 as int, pos.1 as int)) ==> r.is_err() && *final(self) == *old(self),
            final(self).horizontal == old(self).horizontal,
            final(self).vertical == old(self).vertical,
    {
        if pos.0 < 9 && pos.1 < 9 {
            let p = Position::new_unchecked(pos.1 * 9 + pos.0);
            match player {
                Player::Player1 => {
                    self.player1_pos = p;
                },
                Player::Player2 => {
                    self.player2_pos = p;
                },
            }
            Ok(())
        } else {
            Err(())
        }
    }

    /// No wall lies between the cell and the one below it.
    pub fn is_passible_down(&self, pos: (u8, u8)) -> (r: bool)
        ensures
            r == self@.open_down((pos.0 as int, pos.1 as int)),
    {
        let neighbor = if pos.0 > 0 {
            match BoardV2::bit_mask((pos.0 - 1, pos.1)) {
                Some(mask) => mask & self.horizontal == 0,
                None => true,
            }
        } else {
            true
        };
        let this = match BoardV2::bit_mask(pos) {
            Some(mask) => mask & self.horizontal == 0,
            None => true,
        };
        proof {
            lemma_and_commutes(self.horizontal, bit_of((pos.0 as int, pos.1 as int)));
            lemma_and_commutes(self.horizontal, bit_of((pos.0 as int - 1, pos.1 as int)));
        }
        neighbor && this
    }

    /// No wall lies between the cell and the one to its right.
    pub fn is_passible_right(&self, pos: (u8, u8)) -> (r: bool)
        ensures
            r == self@.open_right((pos.0 as int, pos.1 as int)),
    {
        let neighbor = if pos.1 > 0 {
            match BoardV2::bit_mask((pos.0, pos.1 - 1)) {
                Some(mask) => mask & self.vertical == 0,
                None => true,
            }
        } else {
            true
        };
        let this = match BoardV2::bit_mask(pos) {
            Some(mask) => mask & self.vertical == 0,
            None => true,
        };
        proof {
            lemma_and_commutes(self.vertical, bit_of((pos.0 as int, pos.1 as int)));
            lemma_and_commutes(self.vertical, bit_of((pos.0 as int, pos.1 as int - 1)));
        }
        neighbor && this
    }

    /// A token on `location` can step in `direction`: the neighbouring
    /// cell exists and no wall lies between the two.
    pub fn is_passible(&self, location: (u8, u8), direction: Direction) -> (r: bool)
        ensures
            r == self@.passable((location.0 as int, location.1 as int), direction),
    {
        let (x, y) = location;
        if x >= 9 || y >= 9 {
            return false;
        }
        match direction {
            Direction::Right => x < 8 && self.is_passible_right((x, y)),
            Direction::Down => y < 8 && self.is_passible_down((x, y)),
            Direction::Up => y > 0 && self.is_passible_down((x, y - 1)),
            Direction::Left => x > 0 && self.is_passible_right((x - 1, y)),
        }
    }

    /// The wall anchored at an intersection, if there is one.
    pub fn get_wall_state(&self, location: (u8, u8)) -> (r: Option<Orientation>)
        ensures
            r == (if self@.horizontal.contains((location.0 as int, location.1 as int)) {
                Some(Orientation::Horizontal)
            } else if self@.vertical.contains((location.0 as int, location.1 as int)) {
                Some(Orientation::Vertical)
            } else {
                None
            }),
    {
        match BoardV2::bit_mask(location) {
            None => None,
            Some(mask) => {
                proof {
                    lemma_and_commutes(self.horizontal, mask);
                    lemma_and_commutes(self.vertical, mask);
                }
                if mask & self.horizontal != 0 {
                    Some(Orientation::Horizontal)
                } else if mask & self.vertical != 0 {
                    Some(Orientation::Vertical)
                } else {
                    None
                }
            },
        }
    }

    /// Places a wall for the player and takes it from the player's
    /// budget. Whether the wall shuts a player in is not asked.
    pub fn add_wall(&mut self, player: Player, location: (u8, u8), orientation: Orientation) -> (r: Result<
        (),
        Error,
    >)
        ensures
            match old(self)@.add_wall(player, orientation, (location.0 as int, location.1 as int)) {
                Ok(v) => r.is_ok() && final(self)@ == v,
                Err(e) => r == Err::<(), Error>(e) && *final(self) == *old(self),
            },
            final(self).player1_pos == old(self).player1_pos,
            final(self).player2_pos == old(self).player2_pos,
    {
        if self.available_walls(player) == 0 {
            return Err(Error::NoWallsLeft);
        }
        let mask = match BoardV2::bit_mask(location) {
            None => {
                return Err(Error::OutOfBounds);
            },
            Some(mask) => mask,
        };
        proof {
            lemma_word_union(self.vertical, self.horizontal, mask);
            lemma_anchors_insert(self.horizontal, (location.0 as int, location.1 as int));
            lemma_anchors_insert(self.vertical, (location.0 as int, location.1 as int));
        }
        if (self.vertical | self.horizontal) & mask != 0 {
            return Err(Error::WallOverlap);
        }
        match orientation {
            Orientation::Horizontal => {
                self.horizontal = self.horizontal | mask;
            },
            Orientation::Vertical => {
                self.vertical = self.vertical | mask;
            },
        }
        match player {
            Player::Player1 => {
                self.player1_walls = self.player1_walls - 1;
            },
            Player::Player2 => {
                self.player2_walls = self.player2_walls - 1;
            },
        }
        Ok(())
    }

    /// Steps the player's token one cell. The step fails where it leaves
    /// the board or crosses a wall; the other token is no obstacle.
    pub fn move_token(&mut self, player: Player, direction: Direction) -> (r: Result<(), Error>)
        ensures
            match old(self)@.move_token(player, direction) {
                Ok(v) => r.is_ok() && final(self)@ == v,
                Err(e) => r == Err::<(), Error>(e) && *final(self) == *old(self),
            },
            final(self).horizontal == old(self).horizontal,
            final(self).vertical == old(self).vertical,
    {
        let here = self.player_location(player);
        if !self.is_passible(here, direction) {
            return Err(Error::BlockedOrOffBoard);
        }
        match direction.shift(here) {
            Some(there) => match self.set_player_location(player, there) {
                Ok(()) => Ok(()),
                Err(()) => Err(Error::BlockedOrOffBoard),
            },
            None => Err(Error::BlockedOrOffBoard),
        }
    }

    /// Carries out a move for the player.
    pub fn apply_move(&mut self, candidate: &Move, player: Player) -> (r: Result<(), Error>)
        ensures
            match old(self)@.apply(player, *candidate) {
                Ok(v) => r.is_ok() && final(self)@ == v,
                Err(e) => r == Err::<(), Error>(e) && *final(self) == *old(self),
            },
    {
        match candidate {
            Move::AddWall { location, orientation } => self.add_wall(player, *location, *orientation),
            Move::MoveToken(d) => self.move_token(player, *d),
        }
    }

    /// The length of a shortest path from the player's token to the
    /// player's goal row, or `None` where walls shut the token in.
    ///
    /// A breadth-first search over two buffers of 81 bytes; it stops at
    /// the first cell of the goal row that leaves the queue.
    pub fn distance_to_goal(&self, player: Player) -> (r: Option<u8>)
        ensures
            match self@.distance(player) {
                Some(d) => d <= 80 && r == Some(d as u8),
                None => r.is_none(),
            },
            r.is_some() == self@.can_exit(player),
    {
        let start = match player {
            Player::Player1 => self.player1_pos.idx(),
            Player::Player2 => self.player2_pos.idx(),
        };
        let goal: u8 = match player {
            Player::Player1 => 8,
            Player::Player2 => 0,
        };
        let dirs = [Direction::Up, Direction::Down, Direction::Left, Direction::Right];
        let mut marks = [UNSEEN;81];
        let mut queue = [0u8;81];
        marks[start as usize] = 0;
        queue[0] = start;
        let mut head: usize = 0;
        let mut tail: usize = 1;
        let ghost mut place: Seq<int> = Seq::new(81, |k: int| 0int);
        proof {
            lemma_search_start(
                self@,
                player,
                Search::of(marks, queue, place, 0, 1),
            );
        }
        while head < tail
            invariant
                Search::of(marks, queue, place, head, tail).inv(
                    self@,
                    player,
                ),
                goal == player.goal_row(),
                dirs@ == seq![Direction::Up, Direction::Down, Direction::Left, Direction::Right],
            decreases 81 - head,
        {
            let u = queue[head];
            let level = marks[u as usize];
            let x = u % 9;
            let y = u / 9;
            if y == goal {
                proof {
                    let s = Search::of(marks, queue, place, head, tail);
                    lemma_search_found(self@, player, s);
                    lemma_distance_unique(self@, player, level as nat);
                }
                return Some(level);
            }
            let mut j: usize = 0;
            while j < 4
                invariant
                    0 <= j <= 4,
                    head < tail,
                    Search::of(marks, queue, place, head, tail).inv(
                        self@,
                        player,
                    ),
                    dirs@ == seq![Direction::Up, Direction::Down, Direction::Left, Direction::Right],
                    u == queue[head as int],
                    level == marks[u as int],
                    u < 81,
                    x == u % 9,
                    y == u / 9,
                    forall|i: int|
                        0 <= i < j && self@.passable(cell_at(u as int), #[trigger] dirs@[i]) ==> marks[slot_of(
                            dirs@[i].step(cell_at(u as int)),
                        )] != UNSEEN,
                decreases 4 - j,
            {
                let d = dirs[j];
                if self.is_passible((x, y), d) {
                    let n = match d {
                        Direction::Up => u - 9,
                        Direction::Down => u + 9,
                        Direction::Left => u - 1,
                        Direction::Right => u + 1,
                    };
                    if marks[n as usize] == UNSEEN {
                        proof {
                            let s = Search::of(marks, queue, place, head, tail);
                            lemma_search_mark(self@, player, s, d);
                            place = place.update(n as int, tail as int);
                        }
                        marks[n as usize] = level + 1;
                        queue[tail] = n;
                        tail = tail + 1;
                    }
                }
                j = j + 1;
            }
            proof {
                let s = Search::of(marks, queue, place, head, tail);
                assert forall|d: Direction| #[trigger] self@.passable(cell_at(s.at(s.head)), d) implies s.seen(
                    slot_of(d.step(cell_at(s.at(s.head)))),
                ) by {
                    match d {
                        Direction::Up => {
                            assert(dirs@[0] == d);
                        },
                        Direction::Down => {
                            assert(dirs@[1] == d);
                        },
                        Direction::Left => {
                            assert(dirs@[2] == d);
                        },
                        Direction::Right => {
                            assert(dirs@[3] == d);
                        },
                    }
                }
                lemma_search_advance(self@, player, s);
            }
            head = head + 1;
        }
        proof {
            let s = Search::of(marks, queue, place, head, tail);
            lemma_search_exhausted(self@, player, s);
            lemma_distance_none(self@, player);
        }
        None
    }

    /// The bit of an intersection, or no bit for a place off the grid of
    /// intersections.
    fn bit_or_none(x: u8, y: u8) -> (m: u64)
        ensures
            forall|bits: u64| (#[trigger] (bits & m) == 0) == !wall_bit(bits, (x as int, y as int)),
    {
        match BoardV2::bit_mask((x, y)) {
            Some(mask) => mask,
            None => {
                assert forall|bits: u64| bits & 0 == 0 by {
                    lemma_mask_zero(bits);
                }
                0
            },
        }
    }

    /// The bits that a wall at an intersection must find free in the word
    /// of its own kind: its own and those of the two neighbours along its
    /// axis.
    fn conflict_mask(location: (u8, u8), orientation: Orientation) -> (m: u64)
        requires
            is_anchor((location.0 as int, location.1 as int)),
        ensures
            forall|bits: u64|
                (#[trigger] (bits & m) == 0) == (!wall_bit(bits, (location.0 as int, location.1 as int)) && match orientation {
                    Orientation::Horizontal => !wall_bit(bits, (location.0 - 1, location.1 as int)) && !wall_bit(
                        bits,
                        (location.0 + 1, location.1 as int),
                    ),
                    Orientation::Vertical => !wall_bit(bits, (location.0 as int, location.1 - 1)) && !wall_bit(
                        bits,
                        (location.0 as int, location.1 + 1),
                    ),
                }),
    {
        let (x, y) = location;
        let here = BoardV2::bit_or_none(x, y);
        let before = match orientation {
            Orientation::Horizontal => if x > 0 {
                BoardV2::bit_or_none(x - 1, y)
            } else {
                BoardV2::bit_or_none(8, y)
            },
            Orientation::Vertical => if y > 0 {
                BoardV2::bit_or_none(x, y - 1)
            } else {
                BoardV2::bit_or_none(x, 8)
            },
        };
        let after = match orientation {
            Orientation::Horizontal => BoardV2::bit_or_none(x + 1, y),
            Orientation::Vertical => BoardV2::bit_or_none(x, y + 1),
        };
        let m = before | here | after;
        assert forall|bits: u64|
            (#[trigger] (bits & m) == 0) == (bits & before == 0 && bits & here == 0 && bits & after == 0) by {
            lemma_mask_union(bits, before | here, after);
            lemma_mask_union(bits, before, here);
        }
        assert forall|a: (int, int), bits: u64| !is_anchor(a) implies !#[trigger] wall_bit(bits, a) by {}
        m
    }

    /// Legality without the search for exits. For a wall: the player has
    /// a wall left, the anchor is an intersection, and the wall touches
    /// no wall on the board. For a step: it is passable and the cell is
    /// not the other token's.
    pub fn is_probably_legal(&self, player: Player, candidate_move: &Move) -> (r: bool)
        ensures
            r == self@.probably_legal(player, *candidate_move),
    {
        match candidate_move {
            Move::AddWall { location, orientation } => {
                if self.available_walls(player) == 0 {
                    return false;
                }
                let here = match BoardV2::bit_mask(*location) {
                    None => {
                        return false;
                    },
                    Some(mask) => mask,
                };
                let mask = BoardV2::conflict_mask(*location, *orientation);
                proof {
                    lemma_word_union(self.horizontal, self.vertical, here);
                }
                let own = match orientation {
                    Orientation::Horizontal => self.horizontal & mask == 0,
                    Orientation::Vertical => self.vertical & mask == 0,
                };
                own && (self.horizontal | self.vertical) & here == 0
            },
            Move::MoveToken(direction) => {
                let here = self.player_location(player);
                let there = self.player_location(player.other());
                if !self.is_passible(here, *direction) {
                    return false;
                }
                match direction.shift(here) {
                    Some(next) => next.0 != there.0 || next.1 != there.1,
                    None => false,
                }
            },
        }
    }

    /// The rule of the game: the move is probably legal and, if it is a
    /// wall, both players can still reach their goal rows once it stands.
    pub fn is_legal(&self, player: Player, candidate_move: &Move) -> (r: bool)
        ensures
            r == self@.legal(player, *candidate_move),
    {
        if !self.is_probably_legal(player, candidate_move) {
            return false;
        }
        match candidate_move {
            Move::AddWall { location, orientation } => {
                let mut hypo = *self;
                let added_wall = hypo.add_wall(player, *location, *orientation).is_ok();
                let p1_can_exit = hypo.distance_to_goal(Player::Player1).is_some();
                let p2_can_exit = hypo.distance_to_goal(Player::Player2).is_some();
                added_wall && p1_can_exit && p2_can_exit
            },
            Move::MoveToken(_) => true,
        }
    }

    /// The legal moves of the player, in the order of `all_moves`.
    pub fn legal_moves(&self, player: Player) -> (r: Vec<Move>)
        ensures
            r@ == candidates().filter(|m: Move| self@.legal(player, m)),
            forall|i: int| 0 <= i < r@.len() ==> self@.legal(player, #[trigger] r@[i]) && candidates().contains(r@[i]),
    {
        let all = all_moves();
        let ghost pred = |m: Move| self@.legal(player, m);
        let mut r: Vec<Move> = Vec::new();
        let mut i: usize = 0;
        assert(all@.take(0) =~= Seq::<Move>::empty());
        while i < all.len()
            invariant
                i <= all.len(),
                all@ == candidates(),
                pred == |m: Move| self@.legal(player, m),
                r@ == all@.take(i as int).filter(pred),
                forall|k: int|
                    0 <= k < r@.len() ==> self@.legal(player, #[trigger] r@[k]) && candidates().contains(r@[k]),
            decreases all.len() - i,
        {
            let m = all[i];
            proof {
                assert(all@.take(i + 1).drop_last() =~= all@.take(i as int));
                assert(all@.take(i + 1).last() == m);
                reveal_with_fuel(Seq::filter, 2);
            }
            if self.is_legal(player, &m) {
                r.push(m);
            }
            i = i + 1;
        }
        assert(all@.take(i as int) =~= all@);
        r
    }

    /// The state of a hasher that was in `state` and then took in this
    /// board: the two wall words, the two positions as numbers from 1 to
    /// 81, and the two wall budgets, player 1 before player 2.
    pub open spec fn hash_from(self, state: u64) -> u64 {
        let s1 = fx_step(state, self.horizontal);
        let s2 = fx_step(s1, self.vertical);
        let s3 = fx_step(s2, (self.player1_pos.index() + 1) as u64);
        let s4 = fx_step(s3, (self.player2_pos.index() + 1) as u64);
        let s5 = fx_step(s4, self.player1_walls as u64);
        fx_step(s5, self.player2_walls as u64)
    }

    /// Feeds the board to a hasher, every field in a fixed order.
    pub fn fx_hash(&self, hasher: &mut FxHasher64)
        ensures
            fx_state(*final(hasher)) == self.hash_from(fx_state(*old(hasher))),
    {
        fx_write_u64(hasher, self.horizontal);
        fx_write_u64(hasher, self.vertical);
        fx_write_u8(hasher, self.player1_pos.idx() + 1);
        fx_write_u8(hasher, self.player2_pos.idx() + 1);
        fx_write_u8(hasher, self.player1_walls);
        fx_write_u8(hasher, self.player2_walls);
    }

    fn flip_rows(n: u64) -> (r: u64)
        ensures
            r == mirror_rows(n),
    {
        let a = ((n >> 4) & 0x0f0f0f0f0f0f0f0f) | ((n & 0x0f0f0f0f0f0f0f0f) << 4);
        let b = ((a >> 2) & 0x3333333333333333) | ((a & 0x3333333333333333) << 2);
        ((b >> 1) & 0x5555555555555555) | ((b & 0x5555555555555555) << 1)
    }

    fn flip_player(l: Position) -> (r: Position)
        ensures
            r@ == (l@.0, 8 - l@.1),
    {
        let i = l.idx();
        Position::new_unchecked((8 - i / 9) * 9 + i % 9)
    }

    /// The board seen from the other side: every wall and token in the
    /// row that mirrors its own, and the players with their places,
    /// tokens and budgets exchanged.
    pub fn flip(&self) -> (r: BoardV2)
        ensures
            r@ == self@.flipped(),
    {
        proof {
            lemma_anchors_mirror(self.horizontal);
            lemma_anchors_mirror(self.vertical);
        }
        BoardV2 {
            horizontal: BoardV2::flip_rows(self.horizontal),
            vertical: BoardV2::flip_rows(self.vertical),
            player1_pos: BoardV2::flip_player(self.player2_pos),
            player2_pos: BoardV2::flip_player(self.player1_pos),
            player1_walls: self.player2_walls,
            player2_walls: self.player1_walls,
        }
    }

    /// The board as text: the two wall words, the two positions as
    /// numbers from 1 to 81 and the two budgets, all in decimal, with a
    /// blank between each two.
    pub open spec fn repr(self) -> Seq<char> {
        decimal(self.horizontal as nat).push(' ') + decimal(self.vertical as nat).push(' ') + decimal(
            (self.player1_pos.index() + 1) as nat,
        ).push(' ') + decimal((self.player2_pos.index() + 1) as nat).push(' ') + decimal(
            self.player1_walls as nat,
        ).push(' ') + decimal(self.player2_walls as nat)
    }

    /// The board as one line of text, from which it can be told again.
    pub fn repr_string(&self) -> (r: String)
        ensures
            r@ == self.repr(),
    {
        let mut r = String::new();
        push_decimal(&mut r, self.horizontal);
        push_blank(&mut r);
        push_decimal(&mut r, self.vertical);
        push_blank(&mut r);
        push_decimal(&mut r, (self.player1_pos.idx() + 1) as u64);
        push_blank(&mut r);
        push_decimal(&mut r, (self.player2_pos.idx() + 1) as u64);
        push_blank(&mut r);
        push_decimal(&mut r, self.player1_walls as u64);
        push_blank(&mut r);
        push_decimal(&mut r, self.player2_walls as u64);
        assert(r@ =~= self.repr());
        r
    }
}

/// Whether the player's token can get to the player's goal row.
///
/// A flood from the token's cell. Of the wet cells from which the water
/// has not spread yet, the one nearest to the goal row comes first.
pub fn can_reach_goal_v2(board: &BoardV2, player: Player) -> (r: bool)
    ensures
        r == board@.can_exit(player),
{
    let start = match player {
        Player::Player1 => board.player1_pos.idx(),
        Player::Player2 => board.player2_pos.idx(),
    };
    let goal: u8 = match player {
        Player::Player1 => 8,
        Player::Player2 => 0,
    };
    if start / 9 == goal {
        proof {
            lemma_exit_at_goal(board@, player);
        }
        return true;
    }
    let dirs = [Direction::Down, Direction::Up, Direction::Left, Direction::Right];
    let mut hit_map = [false;81];
    let mut solved_map = [false;81];
    hit_map[start as usize] = true;
    let ghost mut steps: Seq<nat> = Seq::new(81, |k: int| 0nat);
    proof {
        lemma_flood_start(board@, player, Flood::of(hit_map, solved_map, steps));
        lemma_count_set_bound(solved_map@, 81);
    }
    loop
        invariant
            Flood::of(hit_map, solved_map, steps).inv(board@, player),
            goal == player.goal_row(),
            dirs@ == seq![Direction::Down, Direction::Up, Direction::Left, Direction::Right],
            0 <= count_set(solved_map@, 81) <= 81,
        decreases 81 - count_set(solved_map@, 81),
    {
        let mut pick: Option<u8> = None;
        let mut i: u8 = 0;
        while i < 81 && pick.is_none()
            invariant
                i <= 81,
                goal == player.goal_row(),
                forall|j: int|
                    0 <= j < i ==> !(#[trigger] hit_map[scan_order(player, j)] && !solved_map[scan_order(player, j)])
                        || pick.is_some(),
                pick matches Some(k) ==> k < 81 && hit_map[k as int] && !solved_map[k as int],
            decreases 81 - i + (if pick.is_none() { 1int } else { 0int }),
        {
            let row = i / 9;
            let y = if goal == 8 {
                8 - row
            } else {
                row
            };
            let k = y * 9 + i % 9;
            if hit_map[k as usize] && !solved_map[k as usize] {
                pick = Some(k);
            }
            i = i + 1;
        }
        let k = match pick {
            None => {
                proof {
                    assert forall|c: int| 0 <= c < 81 && hit_map[c] implies solved_map[c] by {
                        let j = (if goal == 8 {
                            8 - c / 9
                        } else {
                            c / 9
                        }) * 9 + c % 9;
                        assert(scan_order(player, j) == c);
                    }
                    lemma_flood_done(board@, player, Flood::of(hit_map, solved_map, steps));
                }
                return false;
            },
            Some(k) => k,
        };
        let x = k % 9;
        let y = k / 9;
        let mut j: usize = 0;
        while j < 4
            invariant
                0 <= j <= 4,
                k < 81,
                x == k % 9,
                y == k / 9,
                goal == player.goal_row(),
                Flood::of(hit_map, solved_map, steps).inv(board@, player),
                hit_map[k as int],
                !solved_map[k as int],
                0 <= count_set(solved_map@, 81) <= 81,
                dirs@ == seq![Direction::Down, Direction::Up, Direction::Left, Direction::Right],
                forall|e: int|
                    0 <= e < j && board@.passable(cell_at(k as int), #[trigger] dirs@[e]) ==> hit_map[slot_of(
                        dirs@[e].step(cell_at(k as int)),
                    )],
            decreases 4 - j,
        {
            let d = dirs[j];
            if board.is_passible((x, y), d) {
                let n = match d {
                    Direction::Up => k - 9,
                    Direction::Down => k + 9,
                    Direction::Left => k - 1,
                    Direction::Right => k + 1,
                };
                if !hit_map[n as usize] {
                    if n / 9 == goal {
                        proof {
                            lemma_flood_goal(board@, player, Flood::of(hit_map, solved_map, steps), k as int, d);
                        }
                        return true;
                    }
                    proof {
                        lemma_flood_wet(board@, player, Flood::of(hit_map, solved_map, steps), k as int, d);
                        steps = steps.update(n as int, steps[k as int] + 1);
                    }
                    hit_map[n as usize] = true;
                }
            }
            j = j + 1;
        }
        proof {
            let f = Flood::of(hit_map, solved_map, steps);
            assert forall|d: Direction| #[trigger] board@.passable(cell_at(k as int), d) implies f.hit[slot_of(
                d.step(cell_at(k as int)),
            )] by {
                match d {
                    Direction::Down => {
                        assert(dirs@[0] == d);
                    },
                    Direction::Up => {
                        assert(dirs@[1] == d);
                    },
                    Direction::Left => {
                        assert(dirs@[2] == d);
                    },
                    Direction::Right => {
                        assert(dirs@[3] == d);
                    },
                }
            }
            lemma_flood_spread(board@, player, f, k as int);
        }
        solved_map[k as usize] = true;
    }
}

/// The cell that the flood looks at in the `i`-th place: row by row,
/// the player's goal row first.
pub open spec fn scan_order(player: Player, i: int) -> int {
    (if player.goal_row() == 8 {
        8 - i / 9
    } else {
        i / 9
    }) * 9 + i % 9
}

} // verus!
