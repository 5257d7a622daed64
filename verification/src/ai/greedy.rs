//! The greedy player: of the legal moves it takes the one after which
//! the heuristic is highest, and of several such the first.

use vstd::prelude::*;
use crate::ai::{evaluate, is_best, score, stuck};
use crate::rules::Turn;
use crate::bitpacked::BoardV2;
use crate::moves::{all_moves, candidate, candidates, Move, Player};

verus! {

/// A player that looks one move ahead.
pub struct GreedyAiPlayer {
    board: BoardV2,
    current_player: Player,
}

impl View for GreedyAiPlayer {
    type V = Turn;

    closed spec fn view(&self) -> Turn {
        Turn { board: self.board@, player: self.current_player }
    }
}

impl GreedyAiPlayer {
    /// A player for a game that stands at `board` with `current_player`
    /// to move.
    pub fn new(board: BoardV2, current_player: Player) -> (r: Self)
        ensures
            r@ == (Turn { board: board@, player: current_player }),
    {
        Self { board, current_player }
    }

    /// Takes note of a move that the player to move has made. An illegal
    /// move is refused and changes nothing.
    pub fn send(&mut self, m: &Move) -> (r: Result<(), ()>)
        ensures
            old(self)@.board.legal(old(self)@.player, *m) ==> r.is_ok() && final(self)@ == old(self)@.after(*m),
            !old(self)@.board.legal(old(self)@.player, *m) ==> r.is_err() && final(self)@ == old(self)@,
    {
        if !self.board.is_legal(self.current_player, m) {
            return Err(());
        }
        match self.board.apply_move(m, self.current_player) {
            Ok(()) => {
                self.current_player = self.current_player.other();
                Ok(())
            },
            Err(_) => Err(()),
        }
    }

    /// Chooses a move for the player to move, and makes it. Where there is
    /// no legal move it fails and changes nothing.
    pub fn receive(&mut self) -> (r: Result<Move, ()>)
        ensures
            match r {
                Ok(m) => exists|i: int|
                    is_best(old(self)@.board, old(self)@.player, i) && m == candidate(i) && final(self)@ == old(self)@.after(m),
                Err(_) => stuck(old(self)@.board, old(self)@.player) && final(self)@ == old(self)@,
            },
    {
        let m = match best_move(self.board, self.current_player) {
            Ok(m) => m,
            Err(_) => {
                return Err(());
            },
        };
        match self.board.apply_move(&m, self.current_player) {
            Ok(()) => {
                self.current_player = self.current_player.other();
                Ok(m)
            },
            Err(_) => Err(()),
        }
    }
}

/// The greedy choice among the player's legal moves: the move after
/// which the opponent's distance less the player's own is greatest, and
/// of several such the first in the order of `all_moves`. It fails where
/// the player has no legal move.
pub fn best_move(board: BoardV2, player: Player) -> (r: Result<Move, ()>)
    ensures
        match r {
            Ok(m) => exists|i: int| is_best(board@, player, i) && m == candidate(i),
            Err(_) => stuck(board@, player),
        },
{
    let all = all_moves();
    let mut best: Option<(Move, i8)> = None;
    let ghost mut at: int = 0;
    let mut i: usize = 0;
    while i < all.len()
        invariant
            i <= all.len(),
            all@ == candidates(),
            match best {
                None => forall|j: int| 0 <= j < i ==> !#[trigger] board@.legal(player, candidate(j)),
                Some((m, s)) => {
                    &&& 0 <= at < i
                    &&& m == candidate(at)
                    &&& s == score(board@, player, m)
                    &&& board@.legal(player, m)
                    &&& forall|j: int|
                        0 <= j < i && #[trigger] board@.legal(player, candidate(j)) ==> score(
                            board@,
                            player,
                            candidate(j),
                        ) <= s
                    &&& forall|j: int|
                        0 <= j < at && #[trigger] board@.legal(player, candidate(j)) ==> score(
                            board@,
                            player,
                            candidate(j),
                        ) < s
                },
            },
        decreases all.len() - i,
    {
        let m = all[i];
        let mut nb = board;
        if board.is_legal(player, &m) && nb.apply_move(&m, player).is_ok() {
            let s = evaluate(&nb, player);
            let better = match best {
                None => true,
                Some((_, top)) => s > top,
            };
            if better {
                best = Some((m, s));
                proof {
                    at = i as int;
                }
            }
        }
        i = i + 1;
    }
    match best {
        None => Err(()),
        Some((m, _)) => {
            assert(is_best(board@, player, at));
            Ok(m)
        },
    }
}

} // verus!
