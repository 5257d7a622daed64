//! Facts about paths on the board.

use vstd::prelude::*;
use crate::moves::{on_board, Direction, Player};
use crate::rules::BoardView;

verus! {

/// A step can be taken back: the border it crosses is the same one.
pub proof fn lemma_step_back(v: BoardView, c: (int, int), d: Direction)
    requires
        v.passable(c, d),
    ensures
        v.passable(d.step(c), d.reverse()),
        d.reverse().step(d.step(c)) == c,
{
}

/// Whatever is reached is on the board, and so is the starting cell.
pub proof fn lemma_reach_on_board(v: BoardView, from: (int, int), to: (int, int), n: nat)
    requires
        v.reach(from, to, n),
    ensures
        on_board(from),
        on_board(to),
    decreases n,
{
    if n > 0 {
        let m = (n - 1) as nat;
        if v.reach(from, to, m) {
            lemma_reach_on_board(v, from, to, m);
        } else if v.passable(to, Direction::Up) && v.reach(from, Direction::Up.step(to), m) {
            lemma_reach_on_board(v, from, Direction::Up.step(to), m);
        } else if v.passable(to, Direction::Down) && v.reach(from, Direction::Down.step(to), m) {
            lemma_reach_on_board(v, from, Direction::Down.step(to), m);
        } else if v.passable(to, Direction::Left) && v.reach(from, Direction::Left.step(to), m) {
            lemma_reach_on_board(v, from, Direction::Left.step(to), m);
        } else {
            lemma_reach_on_board(v, from, Direction::Right.step(to), m);
        }
    }
}

/// More steps reach no less.
pub proof fn lemma_reach_monotone(v: BoardView, from: (int, int), to: (int, int), n: nat, m: nat)
    requires
        v.reach(from, to, n),
        n <= m,
    ensures
        v.reach(from, to, m),
    decreases m,
{
    if n < m {
        lemma_reach_monotone(v, from, to, n, (m - 1) as nat);
    }
}

/// A path can be extended by one passable step.
pub proof fn lemma_reach_extend(v: BoardView, from: (int, int), to: (int, int), n: nat, d: Direction)
    requires
        v.reach(from, to, n),
        v.passable(to, d),
    ensures
        v.reach(from, d.step(to), n + 1),
{
    lemma_step_back(v, to, d);
    let next = d.step(to);
    let back = d.reverse();
    assert(v.passable(next, back) && v.reach(from, back.step(next), n));
    match back {
        Direction::Up => {},
        Direction::Down => {},
        Direction::Left => {},
        Direction::Right => {},
    }
}

/// The last step of a path: a cell reached within `n + 1` steps was
/// reached within `n`, or one of its passable neighbours was.
pub proof fn lemma_reach_last(v: BoardView, from: (int, int), to: (int, int), n: nat) -> (d: Direction)
    requires
        v.reach(from, to, n + 1),
        !v.reach(from, to, n),
    ensures
        v.passable(to, d),
        v.reach(from, d.step(to), n),
{
    if v.passable(to, Direction::Up) && v.reach(from, Direction::Up.step(to), n) {
        Direction::Up
    } else if v.passable(to, Direction::Down) && v.reach(from, Direction::Down.step(to), n) {
        Direction::Down
    } else if v.passable(to, Direction::Left) && v.reach(from, Direction::Left.step(to), n) {
        Direction::Left
    } else {
        Direction::Right
    }
}

/// A set of cells that holds the starting cell and is closed under
/// passable steps holds every cell that can be reached.
pub proof fn lemma_reach_closed(v: BoardView, from: (int, int), region: Set<(int, int)>, to: (int, int), n: nat)
    requires
        region.contains(from),
        forall|c: (int, int), d: Direction| region.contains(c) && #[trigger] v.passable(c, d) ==> region.contains(d.step(c)),
        v.reach(from, to, n),
    ensures
        region.contains(to),
    decreases n,
{
    if n > 0 {
        let m = (n - 1) as nat;
        if v.reach(from, to, m) {
            lemma_reach_closed(v, from, region, to, m);
        } else {
            let d = lemma_reach_last(v, from, to, m);
            lemma_reach_closed(v, from, region, d.step(to), m);
            lemma_step_back(v, to, d);
            assert(v.passable(d.step(to), d.reverse()));
        }
    }
}

/// A path can be entered by one passable step: what is reached from the
/// neighbour is reached from here with one step more.
pub proof fn lemma_reach_prepend(v: BoardView, a: (int, int), d: Direction, to: (int, int), n: nat)
    requires
        v.passable(a, d),
        v.reach(d.step(a), to, n),
    ensures
        v.reach(a, to, n + 1),
    decreases n,
{
    let b = d.step(a);
    lemma_step_back(v, a, d);
    if n == 0 {
        assert(v.reach(a, a, 0));
        lemma_reach_extend(v, a, a, 0, d);
    } else {
        let m = (n - 1) as nat;
        if v.reach(b, to, m) {
            lemma_reach_prepend(v, a, d, to, m);
            lemma_reach_monotone(v, a, to, n, n + 1);
        } else {
            let e = lemma_reach_last(v, b, to, m);
            lemma_reach_prepend(v, a, d, e.step(to), m);
            lemma_step_back(v, to, e);
            lemma_reach_extend(v, a, e.step(to), n, e.reverse());
        }
    }
}

/// Paths depend on the walls alone.
pub proof fn lemma_reach_same_walls(v: BoardView, w: BoardView, from: (int, int), to: (int, int), n: nat)
    requires
        v.horizontal == w.horizontal,
        v.vertical == w.vertical,
    ensures
        v.reach(from, to, n) == w.reach(from, to, n),
    decreases n,
{
    if n > 0 {
        let m = (n - 1) as nat;
        lemma_reach_same_walls(v, w, from, to, m);
        lemma_reach_same_walls(v, w, from, Direction::Up.step(to), m);
        lemma_reach_same_walls(v, w, from, Direction::Down.step(to), m);
        lemma_reach_same_walls(v, w, from, Direction::Left.step(to), m);
        lemma_reach_same_walls(v, w, from, Direction::Right.step(to), m);
    }
}

/// A path of `n` steps ends at most `n` rows from where it began.
pub proof fn lemma_reach_rows(v: BoardView, from: (int, int), to: (int, int), n: nat)
    requires
        v.reach(from, to, n),
    ensures
        from.1 - n <= to.1 <= from.1 + n,
    decreases n,
{
    if n > 0 {
        let m = (n - 1) as nat;
        if v.reach(from, to, m) {
            lemma_reach_rows(v, from, to, m);
        } else {
            let d = lemma_reach_last(v, from, to, m);
            lemma_reach_rows(v, from, d.step(to), m);
        }
    }
}

/// On a board without walls a token gets down its column as far as the
/// board goes.
pub proof fn lemma_reach_down(v: BoardView, from: (int, int), n: nat)
    requires
        v.horizontal == Set::<(int, int)>::empty(),
        on_board(from),
        from.1 + n <= 8,
    ensures
        v.reach(from, (from.0, from.1 + n), n),
    decreases n,
{
    if n > 0 {
        let m = (n - 1) as nat;
        lemma_reach_down(v, from, m);
        lemma_reach_extend(v, from, (from.0, from.1 + m), m, Direction::Down);
    }
}

/// On a board without walls a token gets up its column as far as the
/// board goes.
pub proof fn lemma_reach_up(v: BoardView, from: (int, int), n: nat)
    requires
        v.horizontal == Set::<(int, int)>::empty(),
        on_board(from),
        from.1 - n >= 0,
    ensures
        v.reach(from, (from.0, from.1 - n), n),
    decreases n,
{
    if n > 0 {
        let m = (n - 1) as nat;
        lemma_reach_up(v, from, m);
        lemma_reach_extend(v, from, (from.0, from.1 - m), m, Direction::Up);
    }
}

/// What is reached within `n` steps is reached by a path of at most
/// `n` steps.
pub proof fn lemma_path_of_reach(v: BoardView, from: (int, int), to: (int, int), n: nat) -> (cells: Seq<(int, int)>)
    requires
        v.reach(from, to, n),
    ensures
        v.is_path(cells),
        cells[0] == from,
        cells.last() == to,
        cells.len() <= n + 1,
    decreases n,
{
    if n == 0 {
        seq![from]
    } else {
        let m = (n - 1) as nat;
        if v.reach(from, to, m) {
            lemma_path_of_reach(v, from, to, m)
        } else {
            let d = lemma_reach_last(v, from, to, m);
            let before = lemma_path_of_reach(v, from, d.step(to), m);
            let cells = before.push(to);
            lemma_step_back(v, to, d);
            assert forall|i: int| 0 <= i < cells.len() - 1 implies v.adjacent(#[trigger] cells[i], cells[i + 1]) by {
                if i < before.len() - 1 {
                    assert(v.adjacent(before[i], before[i + 1]));
                } else {
                    assert(v.passable(cells[i], d.reverse()) && d.reverse().step(cells[i]) == to);
                }
            }
            cells
        }
    }
}

/// Along a path, the `k`-th cell is reached within `k` steps.
pub proof fn lemma_reach_of_path(v: BoardView, cells: Seq<(int, int)>, k: int)
    requires
        v.is_path(cells),
        0 <= k < cells.len(),
    ensures
        v.reach(cells[0], cells[k], k as nat),
    decreases k,
{
    if k > 0 {
        lemma_reach_of_path(v, cells, k - 1);
        let a = cells[k - 1];
        let b = cells[k];
        assert(v.adjacent(a, cells[k - 1 + 1]));
        let d = choose|d: Direction| #[trigger] v.passable(a, d) && d.step(a) == b;
        lemma_reach_extend(v, cells[0], a, (k - 1) as nat, d);
    }
}

/// The shortest distance is unique: `distance` is `Some(d)` exactly for
/// the `d` that `is_distance` singles out.
pub proof fn lemma_distance_unique(v: BoardView, player: Player, d: nat)
    requires
        v.is_distance(player, d),
    ensures
        v.distance(player) == Some(d),
        v.can_exit(player),
{
    assert(v.goal_within(player, d));
    let e = choose|e: nat| v.is_distance(player, e);
    assert(v.is_distance(player, e));
    if e < d {
        assert(!v.goal_within(player, e));
    }
    if d < e {
        assert(!v.goal_within(player, d));
    }
}

/// Where there is no way out, there is no distance.
pub proof fn lemma_distance_none(v: BoardView, player: Player)
    requires
        forall|n: nat| !v.goal_within(player, n),
    ensures
        v.distance(player).is_none(),
        !v.can_exit(player),
{
}

} // verus!
