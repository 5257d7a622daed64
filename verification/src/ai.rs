//! The players that choose their own moves, and what they share: the
//! heuristic, and the state of a game between two players.

use vstd::prelude::*;
use crate::bitpacked::BoardV2;
use crate::ai::greedy::GreedyAiPlayer;
use crate::ai::mcts::{MctsAiPlayer, MctsError, QuoridorState};
use crate::ai::rubot::QuoridorGame;
use crate::moves::{candidate, Move, Player};
use crate::rules::{BoardView, Turn};

pub mod greedy;
pub mod mcts;
pub mod rubot;

verus! {

/// How good a board looks to a player: the steps the opponent has to
/// go less the steps the player has to go. A board on which a player is
/// shut in counts 100.
pub open spec fn heuristic(v: BoardView, player: Player) -> int {
    match (v.distance(player.opponent()), v.distance(player)) {
        (Some(them), Some(me)) => them - me,
        _ => 100,
    }
}

/// What a move is worth to the player who makes it: the heuristic of the
/// board that it leads to.
pub open spec fn score(v: BoardView, player: Player, mv: Move) -> int {
    match v.apply(player, mv) {
        Ok(w) => heuristic(w, player),
        Err(_) => heuristic(v, player),
    }
}

/// The `i`-th candidate is the greedy choice: it is legal, no legal
/// move is worth more, and every legal move before it is worth less.
pub open spec fn is_best(v: BoardView, player: Player, i: int) -> bool {
    &&& 0 <= i < 132
    &&& v.legal(player, candidate(i))
    &&& forall|j: int|
        0 <= j < 132 && #[trigger] v.legal(player, candidate(j)) ==> score(v, player, candidate(j)) <= score(
            v,
            player,
            candidate(i),
        )
    &&& forall|j: int|
        0 <= j < i && #[trigger] v.legal(player, candidate(j)) ==> score(v, player, candidate(j)) < score(
            v,
            player,
            candidate(i),
        )
}

/// The player has no legal move at all.
pub open spec fn stuck(v: BoardView, player: Player) -> bool {
    forall|j: int| 0 <= j < 132 ==> !#[trigger] v.legal(player, candidate(j))
}

/// The heuristic of a board for a player.
pub fn evaluate(board: &BoardV2, player: Player) -> (r: i8)
    ensures
        r == heuristic(board@, player),
        -80 <= r <= 100,
{
    let them = board.distance_to_goal(player.other());
    let me = board.distance_to_goal(player);
    match (them, me) {
        (Some(them), Some(me)) => them as i8 - me as i8,
        _ => 100,
    }
}

/// Why a player could not take or make a move.
#[derive(Debug, Copy, Clone, PartialEq, Eq)]
pub enum AgentError {
    /// The move at hand is against the rules.
    IllegalMove,
    /// There is no legal move.
    NoMove,
}

/// A player of any kind, behind one way of talking to it: it is sent
/// the moves of the other side, and it is asked for its own.
pub enum AiHolder {
    Greedy(GreedyAiPlayer),
    Rubot(QuoridorGame),
    Mcts(MctsAiPlayer),
}

impl View for AiHolder {
    type V = Turn;

    /// The game as the player has it.
    open spec fn view(&self) -> Turn {
        match *self {
            AiHolder::Greedy(g) => g@,
            AiHolder::Rubot(r) => r@,
            AiHolder::Mcts(m) => m@,
        }
    }
}

impl AiHolder {
    /// The player searches before it moves, and falls back on the
    /// greedy choice where the search finds nothing.
    pub open spec fn searches(&self) -> bool {
        !(*self is Greedy)
    }

    /// Takes note of a move that the player to move has made. An illegal
    /// move is refused and changes nothing.
    pub fn send(&mut self, mov: &Move) -> (r: Result<(), AgentError>)
        ensures
            old(self)@.board.legal(old(self)@.player, *mov) ==> r.is_ok() && final(self)@ == old(self)@.after(*mov),
            !old(self)@.board.legal(old(self)@.player, *mov) ==> r == Err::<(), AgentError>(
                AgentError::IllegalMove,
            ) && final(self)@ == old(self)@,
            final(self).searches() == old(self).searches(),
    {
        match self {
            AiHolder::Greedy(g) => match g.send(mov) {
                Ok(()) => Ok(()),
                Err(_) => Err(AgentError::IllegalMove),
            },
            AiHolder::Rubot(r) => r.send(mov),
            AiHolder::Mcts(m) => match m.send(mov) {
                Ok(()) => Ok(()),
                Err(_) => Err(AgentError::IllegalMove),
            },
        }
    }

    /// Has the player make its move: the move that its search has found,
    /// if it searches and has found one, else the greedy choice. A move
    /// of the search that is illegal is refused; where there is no legal
    /// move at all the player has none. Either way nothing changes.
    pub fn receive(&mut self, searched: Option<Move>) -> (r: Result<Move, AgentError>)
        ensures
            final(self).searches() == old(self).searches(),
            match r {
                Ok(m) => {
                    &&& final(self)@ == old(self)@.after(m)
                    &&& old(self)@.board.legal(old(self)@.player, m)
                    &&& if old(self).searches() && searched.is_some() {
                        m == searched.unwrap()
                    } else {
                        exists|i: int| is_best(old(self)@.board, old(self)@.player, i) && m == candidate(i)
                    }
                },
                Err(e) => {
                    &&& final(self)@ == old(self)@
                    &&& if old(self).searches() && searched.is_some() {
                        e == AgentError::IllegalMove && !old(self)@.board.legal(
                            old(self)@.player,
                            searched.unwrap(),
                        )
                    } else {
                        e == AgentError::NoMove && stuck(old(self)@.board, old(self)@.player)
                    }
                },
            },
    {
        match self {
            AiHolder::Greedy(g) => match g.receive() {
                Ok(m) => Ok(m),
                Err(_) => Err(AgentError::NoMove),
            },
            AiHolder::Rubot(r) => r.receive(searched),
            AiHolder::Mcts(m) => match m.receive(searched) {
                Ok(m) => Ok(m),
                Err(MctsError::GreedyError) => Err(AgentError::NoMove),
                Err(_) => Err(AgentError::IllegalMove),
            },
        }
    }
}

} // verus!
