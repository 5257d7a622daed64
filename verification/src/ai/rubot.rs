//! The game as the alpha-beta search sees it: whose turn it is, which
//! moves there are, and what a move is worth.

use vstd::prelude::*;
use crate::ai::{evaluate, heuristic, is_best, stuck, AgentError};
use crate::ai::greedy::best_move;
use crate::bitpacked::BoardV2;
use crate::moves::{candidate, candidates, Error, Move, Player};
use crate::rules::{BoardView, Turn};

verus! {

/// A game between two players, for a search to play through.
#[derive(Clone, Copy)]
pub struct QuoridorGame {
    board: BoardV2,
    current_player: Player,
}

impl View for QuoridorGame {
    type V = Turn;

    closed spec fn view(&self) -> Turn {
        Turn { board: self.board@, player: self.current_player }
    }
}

/// What a board is worth to a player at a leaf of the search: 100 with
/// the player's own token on its goal row, -100 with the opponent's
/// token on its goal row, and the heuristic everywhere else.
pub open spec fn fitness(v: BoardView, player: Player) -> int {
    if v.position(player).1 == player.goal_row() {
        100
    } else if v.position(player.opponent()).1 == player.opponent().goal_row() {
        -100
    } else {
        heuristic(v, player)
    }
}

impl QuoridorGame {
    /// A game at its start, player 1 to move.
    pub fn new() -> (r: QuoridorGame)
        ensures
            r@ == (Turn { board: BoardView::start(), player: Player::Player1 }),
    {
        QuoridorGame { board: BoardV2::empty(), current_player: Player::Player1 }
    }

    /// Makes a move for the player to move, as far as the board takes it;
    /// the legality of the move is not asked. Where the board refuses the
    /// move nothing changes.
    pub fn apply_move(&mut self, mov: &Move) -> (r: Result<(), Error>)
        ensures
            match old(self)@.board.apply(old(self)@.player, *mov) {
                Ok(_) => r.is_ok() && final(self)@ == old(self)@.after(*mov),
                Err(e) => r == Err::<(), Error>(e) && final(self)@ == old(self)@,
            },
    {
        match self.board.apply_move(mov, self.current_player) {
            Ok(()) => {
                self.current_player = self.current_player.other();
                Ok(())
            },
            Err(e) => Err(e),
        }
    }

    /// Takes note of a move that the player to move has made. An illegal
    /// move is refused and changes nothing.
    pub fn send(&mut self, m: &Move) -> (r: Result<(), AgentError>)
        ensures
            old(self)@.board.legal(old(self)@.player, *m) ==> r.is_ok() && final(self)@ == old(self)@.after(*m),
            !old(self)@.board.legal(old(self)@.player, *m) ==> r == Err::<(), AgentError>(AgentError::IllegalMove)
                && final(self)@ == old(self)@,
    {
        if !self.board.is_legal(self.current_player, m) {
            return Err(AgentError::IllegalMove);
        }
        match self.apply_move(m) {
            Ok(()) => Ok(()),
            Err(_) => Err(AgentError::IllegalMove),
        }
    }

    /// The player to move.
    pub fn current_player(&self) -> (r: Player)
        ensures
            r == self@.player,
    {
        self.current_player
    }

    /// The board.
    pub fn board(&self) -> (r: &BoardV2)
        ensures
            r@ == self@.board,
    {
        &self.board
    }

    /// Whether it is `player`'s turn, and the moves of the player to
    /// move: none where the game is over, else the legal ones.
    pub fn actions(&self, player: Player) -> (r: (bool, Vec<Move>))
        ensures
            r.0 == (player == self@.player),
            self@.over() ==> r.1@ == Seq::<Move>::empty(),
            !self@.over() ==> r.1@ == candidates().filter(|m: Move| self@.board.legal(self@.player, m)),
    {
        let mine = match (player, self.current_player) {
            (Player::Player1, Player::Player1) => true,
            (Player::Player2, Player::Player2) => true,
            _ => false,
        };
        let moves = if self.board.player_location(Player::Player1).1 == 8 {
            Vec::new()
        } else if self.board.player_location(Player::Player2).1 == 0 {
            Vec::new()
        } else if self.board.available_walls(Player::Player1) == 0 && self.board.available_walls(Player::Player2)
            == 0 {
            Vec::new()
        } else {
            self.board.legal_moves(self.current_player)
        };
        (mine, moves)
    }

    /// Makes a move that the board takes, and says what the new board is
    /// worth to `player`.
    pub fn execute(&mut self, action: &Move, player: Player) -> (r: i8)
        requires
            old(self)@.board.apply(old(self)@.player, *action) is Ok,
        ensures
            final(self)@ == old(self)@.after(*action),
            r == fitness(final(self)@.board, player),
    {
        let _ = self.apply_move(action);
        let me = self.board.player_location(player);
        let them = self.board.player_location(player.other());
        let my_goal: u8 = match player {
            Player::Player1 => 8,
            Player::Player2 => 0,
        };
        if me.1 == my_goal {
            100
        } else if them.1 == 8 - my_goal {
            -100
        } else {
            evaluate(&self.board, player)
        }
    }

    /// Makes the move that a search has found for the player to move, or,
    /// where the search has found none, the greedy choice. An illegal
    /// move is refused and changes nothing.
    pub fn receive(&mut self, searched: Option<Move>) -> (r: Result<Move, AgentError>)
        ensures
            match searched {
                Some(m) => if old(self)@.board.legal(old(self)@.player, m) {
                    r == Ok::<Move, AgentError>(m) && final(self)@ == old(self)@.after(m)
                } else {
                    r == Err::<Move, AgentError>(AgentError::IllegalMove) && final(self)@ == old(self)@
                },
                None => match r {
                    Ok(m) => exists|i: int|
                        is_best(old(self)@.board, old(self)@.player, i) && m == candidate(i) && final(self)@
                            == old(self)@.after(m),
                    Err(e) => e == AgentError::NoMove && stuck(old(self)@.board, old(self)@.player) && final(self)@ == old(self)@,
                },
            },
    {
        let m = match searched {
            Some(m) => {
                if !self.board.is_legal(self.current_player, &m) {
                    return Err(AgentError::IllegalMove);
                }
                m
            },
            None => match best_move(self.board, self.current_player) {
                Ok(m) => m,
                Err(_) => {
                    return Err(AgentError::NoMove);
                },
            },
        };
        match self.apply_move(&m) {
            Ok(()) => Ok(m),
            Err(_) => Err(AgentError::IllegalMove),
        }
    }
}

} // verus!
