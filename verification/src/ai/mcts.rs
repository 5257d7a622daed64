//! The game as the Monte Carlo tree search sees it, and the player that
//! moves by what such a search has found.

use vstd::prelude::*;
use crate::ai::{is_best, stuck};
use crate::ai::greedy::best_move;
use crate::bitpacked::BoardV2;
use crate::hashing::{fx_finish, fx_new, fx_step, fx_write_u8};
use crate::moves::{candidate, candidates, Move, Player};
use crate::rules::{BoardView, Turn};

verus! {

/// A state of the search. A simulation that makes a move which the
/// board refuses ends in the dirty state, which remembers the offender.
#[derive(Clone, Copy, Debug)]
pub enum QuoridorState {
    Dirty { offender: Player },
    Clean { board: BoardV2, current_player: Player },
}

/// Why the player could not make or take a move.
#[derive(Debug, Copy, Clone, PartialEq, Eq)]
pub enum MctsError {
    /// The search found no move, and there is no legal move to fall back on.
    GreedyError,
    /// The move is against the rules.
    FoundIllegalMove(Move),
    /// The player's own game is in the dirty state.
    InDirtyState,
}

/// What a state is worth to player 1: for a dirty state -100 if player 1
/// offended and 100 if player 2 did; else player 2's distance less
/// player 1's, with 100 for a distance of player 2 that there is not,
/// -100 for one of player 1 that there is not, and the whole kept
/// within -100 and 100.
pub open spec fn evaluation(s: QuoridorState) -> int {
    match s {
        QuoridorState::Dirty { offender } => match offender {
            Player::Player1 => -100,
            Player::Player2 => 100,
        },
        QuoridorState::Clean { board, current_player } => {
            let d2: int = match board@.distance(Player::Player2) {
                Some(d) => d as int,
                None => 100,
            };
            let d1: int = match board@.distance(Player::Player1) {
                Some(d) => d as int,
                None => -100,
            };
            if d2 - d1 > 100 {
                100
            } else {
                d2 - d1
            }
        },
    }
}

/// The hash of a state: 0 for a dirty state; else the Fx hash of a byte
/// for the player to move, 177 or 87, followed by the board.
pub open spec fn state_hash(s: QuoridorState) -> u64 {
    match s {
        QuoridorState::Dirty { offender } => 0,
        QuoridorState::Clean { board, current_player } => board.hash_from(
            fx_step(
                0,
                match current_player {
                    Player::Player1 => 177,
                    Player::Player2 => 87,
                },
            ),
        ),
    }
}

impl QuoridorState {
    /// The state of a game that stands at `board`, player 1 to move.
    pub fn new(board: BoardV2) -> (r: QuoridorState)
        ensures
            r == (QuoridorState::Clean { board, current_player: Player::Player1 }),
    {
        QuoridorState::Clean { board, current_player: Player::Player1 }
    }

    /// The player to move; in a dirty state, the one who did not offend.
    pub fn current_player(&self) -> (r: Player)
        ensures
            r == match *self {
                QuoridorState::Clean { board, current_player } => current_player,
                QuoridorState::Dirty { offender } => offender.opponent(),
            },
    {
        match self {
            QuoridorState::Clean { current_player, board: _ } => *current_player,
            QuoridorState::Dirty { offender } => offender.other(),
        }
    }

    /// The moves that the search may try: none in a dirty state or where
    /// the game is over, else the legal moves of the player to move.
    pub fn available_moves(&self) -> (r: Vec<Move>)
        ensures
            match *self {
                QuoridorState::Clean { board, current_player } => if (Turn {
                    board: board@,
                    player: current_player,
                }).over() {
                    r@ == Seq::<Move>::empty()
                } else {
                    r@ == candidates().filter(|m: Move| board@.legal(current_player, m))
                },
                QuoridorState::Dirty { offender } => r@ == Seq::<Move>::empty(),
            },
    {
        match self {
            QuoridorState::Clean { current_player, board } => {
                if board.player_location(Player::Player1).1 == 8 {
                    return Vec::new();
                }
                if board.player_location(Player::Player2).1 == 0 {
                    return Vec::new();
                }
                if board.available_walls(Player::Player1) == 0 && board.available_walls(Player::Player2) == 0 {
                    return Vec::new();
                }
                board.legal_moves(*current_player)
            },
            QuoridorState::Dirty { offender: _ } => Vec::new(),
        }
    }

    /// Makes a move in a simulation. A move that the board refuses
    /// leaves the state dirty, with the player who made it as the
    /// offender; a dirty state stays as it is.
    pub fn make_move(&mut self, mov: &Move)
        ensures
            match *old(self) {
                QuoridorState::Clean { board, current_player } => match board@.apply(current_player, *mov) {
                    Ok(w) => *final(self) matches QuoridorState::Clean { board: b, current_player: p } && b@ == w
                        && p == current_player.opponent(),
                    Err(_) => *final(self) == (QuoridorState::Dirty { offender: current_player }),
                },
                QuoridorState::Dirty { offender } => *final(self) == *old(self),
            },
    {
        match *self {
            QuoridorState::Clean { current_player, board } => {
                let mut next = board;
                match next.apply_move(mov, current_player) {
                    Ok(()) => {
                        *self = QuoridorState::Clean { board: next, current_player: current_player.other() };
                    },
                    Err(_) => {
                        *self = QuoridorState::Dirty { offender: current_player };
                    },
                }
            },
            QuoridorState::Dirty { offender: _ } => (),
        }
    }

    /// The hash of the state, for the table of positions met before.
    pub fn hash(&self) -> (r: u64)
        ensures
            r == state_hash(*self),
    {
        match self {
            QuoridorState::Dirty { offender: _ } => 0,
            QuoridorState::Clean { current_player, board } => {
                let mut hasher = fx_new();
                fx_write_u8(
                    &mut hasher,
                    match current_player {
                        Player::Player1 => 177,
                        Player::Player2 => 87,
                    },
                );
                board.fx_hash(&mut hasher);
                fx_finish(&hasher)
            },
        }
    }

    /// What the state is worth to player 1.
    pub fn evaluate(&self) -> (r: i8)
        ensures
            r == evaluation(*self),
            -100 <= r <= 100,
    {
        match self {
            QuoridorState::Dirty { offender } => match offender {
                Player::Player1 => -100,
                Player::Player2 => 100,
            },
            QuoridorState::Clean { board, current_player: _ } => {
                let d2: i16 = match board.distance_to_goal(Player::Player2) {
                    Some(d) => d as i16,
                    None => 100,
                };
                let d1: i16 = match board.distance_to_goal(Player::Player1) {
                    Some(d) => d as i16,
                    None => -100,
                };
                let score = d2 - d1;
                if score > 100 {
                    100
                } else {
                    score as i8
                }
            },
        }
    }
}

/// What an evaluation is worth to a player: the evaluation itself to
/// player 1, its negative to player 2.
pub fn interpret_evaluation_for_player(evaln: i8, player: Player) -> (r: i64)
    ensures
        r == match player {
            Player::Player1 => evaln as int,
            Player::Player2 => -(evaln as int),
        },
{
    match player {
        Player::Player1 => evaln as i64,
        Player::Player2 => -(evaln as i64),
    }
}

/// A player that moves by what a tree search finds within its budget.
/// Its own game is never in the dirty state.
pub struct MctsAiPlayer {
    state: QuoridorState,
    think_time: u32,
}

impl View for MctsAiPlayer {
    type V = Turn;

    /// The game as the player has it.
    closed spec fn view(&self) -> Turn {
        match self.state {
            QuoridorState::Clean { board, current_player } => Turn { board: board@, player: current_player },
            QuoridorState::Dirty { offender } => Turn { board: BoardView::start(), player: offender },
        }
    }
}

impl MctsAiPlayer {
    #[verifier::type_invariant]
    spec fn clean(self) -> bool {
        self.state is Clean
    }

    /// The state of the player's own game.
    pub closed spec fn state(&self) -> QuoridorState {
        self.state
    }

    /// The playouts that the search may make for one move.
    pub closed spec fn budget(&self) -> u32 {
        self.think_time
    }

    /// A player for a game that stands at `board`, player 1 to move,
    /// with `think_time` playouts for each move.
    pub fn new(board: BoardV2, think_time: u32) -> (r: MctsAiPlayer)
        ensures
            r@ == (Turn { board: board@, player: Player::Player1 }),
            r.state() == (QuoridorState::Clean { board, current_player: Player::Player1 }),
            r.budget() == think_time,
    {
        MctsAiPlayer { state: QuoridorState::new(board), think_time }
    }

    /// The playouts that the search may make for one move.
    pub fn think_time(&self) -> (r: u32)
        ensures
            r == self.budget(),
    {
        self.think_time
    }

    /// The state from which the search for the next move starts: the
    /// player's own game, which is clean.
    pub fn root(&self) -> (r: QuoridorState)
        ensures
            r == self.state(),
            r matches QuoridorState::Clean { board, current_player } && (Turn {
                board: board@,
                player: current_player,
            }) == self@,
    {
        proof {
            use_type_invariant(self);
        }
        self.state
    }

    /// Takes note of a move that the player to move has made. An illegal
    /// move is refused and changes nothing.
    pub fn send(&mut self, m: &Move) -> (r: Result<(), MctsError>)
        ensures
            final(self).budget() == old(self).budget(),
            old(self)@.board.legal(old(self)@.player, *m) ==> r.is_ok() && final(self)@ == old(self)@.after(*m),
            !old(self)@.board.legal(old(self)@.player, *m) ==> r == Err::<(), MctsError>(
                MctsError::FoundIllegalMove(*m),
            ) && final(self).state() == old(self).state() && final(self)@ == old(self)@,
    {
        proof {
            use_type_invariant(&*self);
        }
        match self.state {
            QuoridorState::Clean { current_player, board } => {
                if !board.is_legal(current_player, m) {
                    return Err(MctsError::FoundIllegalMove(*m));
                }
                let mut next = board;
                match next.apply_move(m, current_player) {
                    Ok(()) => {
                        self.state = QuoridorState::Clean { board: next, current_player: current_player.other() };
                        Ok(())
                    },
                    Err(_) => Err(MctsError::FoundIllegalMove(*m)),
                }
            },
            QuoridorState::Dirty { offender: _ } => Err(MctsError::InDirtyState),
        }
    }

    /// Makes the move that the search has found for the player to move,
    /// or, where the search has found none, the greedy choice. A move of
    /// the search that is illegal is refused; where the search has found
    /// nothing and there is no legal move the player has none. Either way
    /// nothing changes.
    pub fn receive(&mut self, searched: Option<Move>) -> (r: Result<Move, MctsError>)
        ensures
            final(self).budget() == old(self).budget(),
            match r {
                Ok(m) => {
                    &&& final(self)@ == old(self)@.after(m)
                    &&& old(self)@.board.legal(old(self)@.player, m)
                    &&& match searched {
                        Some(found) => m == found,
                        None => exists|i: int| is_best(old(self)@.board, old(self)@.player, i) && m == candidate(i),
                    }
                },
                Err(e) => {
                    &&& final(self).state() == old(self).state()
                    &&& final(self)@ == old(self)@
                    &&& match searched {
                        Some(found) => !old(self)@.board.legal(old(self)@.player, found) && e
                            == MctsError::FoundIllegalMove(found),
                        None => stuck(old(self)@.board, old(self)@.player) && e == MctsError::GreedyError,
                    }
                },
            },
    {
        proof {
            use_type_invariant(&*self);
        }
        match self.state {
            QuoridorState::Clean { current_player, board } => {
                let m = match searched {
                    Some(m) => {
                        if !board.is_legal(current_player, &m) {
                            return Err(MctsError::FoundIllegalMove(m));
                        }
                        m
                    },
                    None => match best_move(board, current_player) {
                        Ok(m) => m,
                        Err(_) => {
                            return Err(MctsError::GreedyError);
                        },
                    },
                };
                let mut next = board;
                match next.apply_move(&m, current_player) {
                    Ok(()) => {
                        self.state = QuoridorState::Clean { board: next, current_player: current_player.other() };
                        Ok(m)
                    },
                    Err(_) => Err(MctsError::FoundIllegalMove(m)),
                }
            },
            QuoridorState::Dirty { offender: _ } => Err(MctsError::InDirtyState),
        }
    }
}

} // verus!
