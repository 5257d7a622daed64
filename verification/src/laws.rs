//! What holds of every game: the laws that tie the rules together.

use vstd::prelude::*;
use crate::ai::is_best;
use crate::bitpacked::BoardV2;
use crate::moves::{candidates, is_anchor, on_board, Direction, Error, Move, Orientation, Player};
use crate::paths::{
    lemma_distance_unique, lemma_path_of_reach, lemma_reach_down, lemma_reach_monotone, lemma_reach_of_path,
    lemma_reach_prepend, lemma_reach_rows, lemma_reach_same_walls, lemma_reach_up, lemma_step_back,
};
use crate::rules::{BoardView, Turn};

verus! {

/// A player who could get out before a passable step of the own token
/// can get out after it.
proof fn lemma_exit_after_own_step(v: BoardView, player: Player, d: Direction)
    requires
        v.can_exit(player),
        v.passable(v.position(player), d),
    ensures
        v.with_token(player, d.step(v.position(player))).can_exit(player),
{
    let from = v.position(player);
    let next = d.step(from);
    let w = v.with_token(player, next);
    let n = choose|n: nat| v.goal_within(player, n);
    let x = choose|x: int| 0 <= x < 9 && #[trigger] v.reach(from, (x, player.goal_row()), n);
    let g = (x, player.goal_row());
    lemma_step_back(v, from, d);
    lemma_reach_prepend(v, next, d.reverse(), g, n);
    lemma_reach_same_walls(v, w, next, g, n + 1);
    assert(w.reach(w.position(player), (x, player.goal_row()), n + 1));
    assert(w.goal_within(player, n + 1));
}

/// A player who could get out before a step of the other token can get
/// out after it.
proof fn lemma_exit_after_other_step(v: BoardView, player: Player, c: (int, int))
    requires
        v.can_exit(player),
    ensures
        v.with_token(player.opponent(), c).can_exit(player),
{
    let from = v.position(player);
    let w = v.with_token(player.opponent(), c);
    let n = choose|n: nat| v.goal_within(player, n);
    let x = choose|x: int| 0 <= x < 9 && #[trigger] v.reach(from, (x, player.goal_row()), n);
    lemma_reach_same_walls(v, w, from, (x, player.goal_row()), n);
    assert(w.reach(w.position(player), (x, player.goal_row()), n));
    assert(w.goal_within(player, n));
}

/// A cell is reached within `n` steps exactly when a path of at most
/// `n` steps leads to it.
pub proof fn law_reach_is_path(v: BoardView, from: (int, int), to: (int, int), n: nat)
    ensures
        v.reach(from, to, n) <==> exists|cells: Seq<(int, int)>|
            #[trigger] v.is_path(cells) && cells[0] == from && cells.last() == to && cells.len() <= n + 1,
{
    if v.reach(from, to, n) {
        let cells = lemma_path_of_reach(v, from, to, n);
        assert(v.is_path(cells) && cells[0] == from && cells.last() == to && cells.len() <= n + 1);
    }
    if exists|cells: Seq<(int, int)>|
        #[trigger] v.is_path(cells) && cells[0] == from && cells.last() == to && cells.len() <= n + 1 {
        let cells = choose|cells: Seq<(int, int)>|
            #[trigger] v.is_path(cells) && cells[0] == from && cells.last() == to && cells.len() <= n + 1;
        lemma_reach_of_path(v, cells, cells.len() - 1);
        lemma_reach_monotone(v, from, to, (cells.len() - 1) as nat, n);
    }
}

/// The distance to the goal row is never less than the rows between.
pub proof fn law_distance_at_least_rows(v: BoardView, player: Player, n: nat)
    requires
        v.goal_within(player, n),
    ensures
        player.goal_row() - v.position(player).1 <= n,
        v.position(player).1 - player.goal_row() <= n,
{
    let x = choose|x: int| 0 <= x < 9 && #[trigger] v.reach(v.position(player), (x, player.goal_row()), n);
    lemma_reach_rows(v, v.position(player), (x, player.goal_row()), n);
}

/// At the start of a game each player is eight steps from the goal row,
/// and the game is in progress.
pub proof fn law_start(player: Player)
    ensures
        BoardView::start().distance(player) == Some(8nat),
        BoardView::start().valid(),
{
    let v = BoardView::start();
    lemma_reach_down(v, v.player1, 8);
    lemma_reach_up(v, v.player2, 8);
    assert(v.reach(v.position(Player::Player1), (4, Player::Player1.goal_row()), 8));
    assert(v.reach(v.position(Player::Player2), (4, Player::Player2.goal_row()), 8));
    assert(v.goal_within(Player::Player1, 8));
    assert(v.goal_within(Player::Player2, 8));
    assert forall|m: nat| m < 8 implies !v.goal_within(player, m) by {
        if v.goal_within(player, m) {
            law_distance_at_least_rows(v, player, m);
        }
    }
    lemma_distance_unique(v, player, 8);
    assert(v.horizontal.len() + v.vertical.len() == 0);
}

/// In a game in progress a move is legal exactly when it can be carried
/// out and leaves a game in progress: wall budgets in range and in step
/// with the walls on the board, no two walls touching, the tokens on
/// two cells of the board, and a way out for each player.
pub proof fn law_legal_iff_valid_after(v: BoardView, player: Player, mv: Move)
    requires
        v.valid(),
    ensures
        v.legal(player, mv) <==> (v.apply(player, mv) matches Ok(w) && w.valid()),
{
    match mv {
        Move::AddWall { orientation, location } => {
            let a = (location.0 as int, location.1 as int);
            let w = v.with_wall(player, orientation, a);
            if v.walls_left(player) >= 1 && is_anchor(a) && !v.horizontal.contains(a) && !v.vertical.contains(a) {
                assert(v.apply(player, mv) == Ok::<BoardView, Error>(w));
                match orientation {
                    Orientation::Horizontal => {
                        assert(w.horizontal == v.horizontal.insert(a));
                        assert(w.vertical == v.vertical);
                        if v.wall_fits(orientation, a) {
                            assert forall|b: (int, int)| #[trigger] w.horizontal.contains(b) implies !w.horizontal.contains(
                                (b.0 + 1, b.1),
                            ) by {
                                if b != a {
                                    assert(v.horizontal.contains(b));
                                }
                            }
                            assert(w.walls_apart());
                        }
                        if w.walls_apart() {
                            assert(w.horizontal.contains(a));
                            if v.horizontal.contains((a.0 - 1, a.1)) {
                                let b = (a.0 - 1, a.1);
                                assert(w.horizontal.contains(b));
                                assert((b.0 + 1, b.1) == a);
                            }
                            assert(v.wall_fits(orientation, a));
                        }
                    },
                    Orientation::Vertical => {
                        assert(w.vertical == v.vertical.insert(a));
                        assert(w.horizontal == v.horizontal);
                        if v.wall_fits(orientation, a) {
                            assert forall|b: (int, int)| #[trigger] w.vertical.contains(b) implies !w.vertical.contains(
                                (b.0, b.1 + 1),
                            ) by {
                                if b != a {
                                    assert(v.vertical.contains(b));
                                }
                            }
                            assert(w.walls_apart());
                        }
                        if w.walls_apart() {
                            assert(w.vertical.contains(a));
                            if v.vertical.contains((a.0, a.1 - 1)) {
                                let b = (a.0, a.1 - 1);
                                assert(w.vertical.contains(b));
                                assert((b.0, b.1 + 1) == a);
                            }
                            assert(v.wall_fits(orientation, a));
                        }
                    },
                }
            }
        },
        Move::MoveToken(d) => {
            let from = v.position(player);
            if v.passable(from, d) {
                let w = v.with_token(player, d.step(from));
                assert(v.apply(player, mv) == Ok::<BoardView, Error>(w));
                lemma_exit_after_own_step(v, player, d);
                lemma_exit_after_other_step(v, player.opponent(), d.step(from));
                assert(player.opponent().opponent() == player);
            }
        },
    }
}

/// Whatever legal moves lead to from the start is a game in progress.
pub proof fn law_play_keeps_valid(moves: Seq<Move>)
    requires
        Turn::play(moves) is Some,
    ensures
        Turn::play(moves).unwrap().board.valid(),
    decreases moves.len(),
{
    if moves.len() == 0 {
        law_start(Player::Player1);
    } else {
        law_play_keeps_valid(moves.drop_last());
        let t = Turn::play(moves.drop_last()).unwrap();
        law_legal_iff_valid_after(t.board, t.player, moves.last());
    }
}

/// Once a legal wall stands, each player has a distance to the goal row.
pub proof fn law_legal_wall_keeps_exits(v: BoardView, player: Player, orientation: Orientation, location: (u8, u8))
    requires
        v.legal(player, Move::AddWall { orientation, location }),
    ensures
        v.apply(player, Move::AddWall { orientation, location }) matches Ok(w) && w.distance(Player::Player1).is_some()
            && w.distance(Player::Player2).is_some(),
{
}

/// Boards with the same walls, token cells and budgets hash alike,
/// whatever the hasher held before.
pub proof fn law_hash_stable(b1: BoardV2, b2: BoardV2, state: u64)
    requires
        b1.horizontal == b2.horizontal,
        b1.vertical == b2.vertical,
        b1.player1_pos@ == b2.player1_pos@,
        b1.player2_pos@ == b2.player2_pos@,
        b1.player1_walls == b2.player1_walls,
        b1.player2_walls == b2.player2_walls,
    ensures
        b1.hash_from(state) == b2.hash_from(state),
{
    b1.player1_pos.lemma_index_of_view();
    b2.player1_pos.lemma_index_of_view();
    b1.player2_pos.lemma_index_of_view();
    b2.player2_pos.lemma_index_of_view();
}

/// No wall can be anchored in column 8 or row 8, nor further out: the
/// placement fails and the move is illegal.
pub proof fn law_no_wall_past_edge(v: BoardView, player: Player, orientation: Orientation, location: (u8, u8))
    requires
        location.0 >= 8 || location.1 >= 8,
    ensures
        v.add_wall(player, orientation, (location.0 as int, location.1 as int)) is Err,
        !v.legal(player, Move::AddWall { orientation, location }),
{
}

/// No wall can be anchored where a wall stands, of either kind.
pub proof fn law_no_wall_on_wall(v: BoardView, player: Player, orientation: Orientation, a: (int, int))
    requires
        v.horizontal.contains(a) || v.vertical.contains(a),
    ensures
        v.add_wall(player, orientation, a) is Err,
{
}

/// A horizontal wall at `(x, y)` closes the way between `(x, y)` and
/// `(x, y + 1)` and between `(x + 1, y)` and `(x + 1, y + 1)`, both ways.
pub proof fn law_horizontal_wall_blocks(v: BoardView, x: int, y: int)
    requires
        v.horizontal.contains((x, y)),
    ensures
        !v.passable((x, y), Direction::Down),
        !v.passable((x, y + 1), Direction::Up),
        !v.passable((x + 1, y), Direction::Down),
        !v.passable((x + 1, y + 1), Direction::Up),
{
}

/// A vertical wall at `(x, y)` closes the way between `(x, y)` and
/// `(x + 1, y)` and between `(x, y + 1)` and `(x + 1, y + 1)`, both ways.
pub proof fn law_vertical_wall_blocks(v: BoardView, x: int, y: int)
    requires
        v.vertical.contains((x, y)),
    ensures
        !v.passable((x, y), Direction::Right),
        !v.passable((x + 1, y), Direction::Left),
        !v.passable((x, y + 1), Direction::Right),
        !v.passable((x + 1, y + 1), Direction::Left),
{
}

/// A player without walls has no legal wall move.
pub proof fn law_no_walls_no_wall_move(v: BoardView, player: Player, orientation: Orientation, location: (u8, u8))
    requires
        v.walls_left(player) == 0,
    ensures
        !v.legal(player, Move::AddWall { orientation, location }),
{
}

/// The distance is 0 exactly when the token stands on its goal row.
pub proof fn law_distance_zero_iff_on_goal_row(v: BoardView, player: Player)
    requires
        on_board(v.position(player)),
    ensures
        v.distance(player) == Some(0nat) <==> v.position(player).1 == player.goal_row(),
{
    let from = v.position(player);
    if from.1 == player.goal_row() {
        assert(v.reach(from, (from.0, player.goal_row()), 0));
        assert(v.goal_within(player, 0));
        assert(v.is_distance(player, 0));
        lemma_distance_unique(v, player, 0);
    }
    if v.distance(player) == Some(0nat) {
        assert(v.can_exit(player));
        let n = choose|n: nat| v.goal_within(player, n);
        lemma_least_distance(v, player, n);
        let d = choose|d: nat| v.is_distance(player, d);
        assert(v.is_distance(player, d));
        assert(d == 0);
        assert(v.goal_within(player, 0));
    }
}

/// Where the goal row lies within some number of steps, there is a
/// least such number.
pub proof fn lemma_least_distance(v: BoardView, player: Player, n: nat)
    requires
        v.goal_within(player, n),
    ensures
        exists|d: nat| d <= n && v.is_distance(player, d),
    decreases n,
{
    if forall|m: nat| m < n ==> !v.goal_within(player, m) {
        assert(v.is_distance(player, n));
    } else {
        let m = choose|m: nat| m < n && v.goal_within(player, m);
        lemma_least_distance(v, player, m);
    }
}

/// Every candidate is one of the four steps or a wall on the grid of
/// intersections, and there are 132 of them.
pub proof fn law_candidates(i: int)
    requires
        0 <= i < 132,
    ensures
        candidates().len() == 132,
        candidates()[i] matches Move::AddWall { location, .. } ==> is_anchor((location.0 as int, location.1 as int)),
{
}

/// Seen from the other side twice, a game is the game again.
pub proof fn law_flip_twice(v: BoardView)
    ensures
        v.flipped().flipped() == v,
{
    assert(v.flipped().flipped().horizontal =~= v.horizontal);
    assert(v.flipped().flipped().vertical =~= v.vertical);
}

/// What is passable on a board is passable on the board seen from the
/// other side, between the mirrored cells and in the mirrored direction.
pub proof fn law_flip_passable(v: BoardView, c: (int, int), d: Direction)
    ensures
        v.flipped().passable((c.0, 8 - c.1), mirrored(d)) == v.passable(c, d),
{
}

/// The direction as it looks from the other side of the board: up and
/// down change places.
pub open spec fn mirrored(d: Direction) -> Direction {
    match d {
        Direction::Up => Direction::Down,
        Direction::Down => Direction::Up,
        Direction::Left => Direction::Left,
        Direction::Right => Direction::Right,
    }
}

/// What is reached on a board is reached on the board seen from the
/// other side, between the mirrored cells.
pub proof fn law_flip_reach(v: BoardView, from: (int, int), to: (int, int), n: nat)
    ensures
        v.flipped().reach((from.0, 8 - from.1), (to.0, 8 - to.1), n) == v.reach(from, to, n),
    decreases n,
{
    if n > 0 {
        let m = (n - 1) as nat;
        law_flip_reach(v, from, to, m);
        law_flip_reach(v, from, Direction::Up.step(to), m);
        law_flip_reach(v, from, Direction::Down.step(to), m);
        law_flip_reach(v, from, Direction::Left.step(to), m);
        law_flip_reach(v, from, Direction::Right.step(to), m);
        law_flip_passable(v, to, Direction::Up);
        law_flip_passable(v, to, Direction::Down);
        law_flip_passable(v, to, Direction::Left);
        law_flip_passable(v, to, Direction::Right);
    }
}

/// Seen from the other side, each player is as far from the goal row as
/// the other player was.
pub proof fn law_flip_distance(v: BoardView, player: Player)
    ensures
        v.flipped().distance(player) == v.distance(player.opponent()),
{
    let w = v.flipped();
    let other = player.opponent();
    assert forall|n: nat| w.goal_within(player, n) == v.goal_within(other, n) by {
        if v.goal_within(other, n) {
            let x = choose|x: int| 0 <= x < 9 && #[trigger] v.reach(v.position(other), (x, other.goal_row()), n);
            law_flip_reach(v, v.position(other), (x, other.goal_row()), n);
            assert(w.reach(w.position(player), (x, player.goal_row()), n));
        }
        if w.goal_within(player, n) {
            let x = choose|x: int| 0 <= x < 9 && #[trigger] w.reach(w.position(player), (x, player.goal_row()), n);
            law_flip_reach(v, v.position(other), (x, other.goal_row()), n);
            assert(v.reach(v.position(other), (x, other.goal_row()), n));
        }
    }
    if v.can_exit(other) {
        let n = choose|n: nat| v.goal_within(other, n);
        lemma_least_distance(v, other, n);
        let d = choose|d: nat| v.is_distance(other, d);
        assert(v.is_distance(other, d));
        assert(w.goal_within(player, d));
        assert(w.is_distance(player, d));
        lemma_distance_unique(v, other, d);
        lemma_distance_unique(w, player, d);
    } else {
        assert forall|n: nat| !w.goal_within(player, n) by {
            assert(!v.goal_within(other, n));
        }
        assert(!w.can_exit(player));
    }
}

/// The greedy choice is one move: no two candidates are both the first
/// of the best.
pub proof fn law_best_is_one(v: BoardView, player: Player, i: int, j: int)
    requires
        is_best(v, player, i),
        is_best(v, player, j),
    ensures
        i == j,
{
}

} // verus!
