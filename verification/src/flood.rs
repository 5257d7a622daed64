//! The flood that tells whether a goal row can be reached at all, as a
//! ghost state with its invariant.

use vstd::prelude::*;
use crate::moves::{on_board, Direction, Player};
use crate::rules::BoardView;
use crate::paths::{lemma_reach_closed, lemma_reach_extend};
use crate::search::{cell_at, slot_of};

verus! {

/// How many of the first `n` flags are set.
pub open spec fn count_set(flags: Seq<bool>, n: int) -> int
    decreases n,
{
    if n <= 0 {
        0
    } else {
        count_set(flags, n - 1) + if flags[n - 1] {
            1int
        } else {
            0int
        }
    }
}

/// Of `n` flags at most `n` are set.
pub proof fn lemma_count_set_bound(flags: Seq<bool>, n: int)
    requires
        0 <= n <= flags.len(),
    ensures
        0 <= count_set(flags, n) <= n,
    decreases n,
{
    if n > 0 {
        lemma_count_set_bound(flags, n - 1);
    }
}

/// Setting a flag that was not set makes one more that is set.
proof fn lemma_count_set_update(flags: Seq<bool>, k: int, n: int)
    requires
        0 <= k < flags.len(),
        0 <= n <= flags.len(),
        !flags[k],
    ensures
        count_set(flags.update(k, true), n) == count_set(flags, n) + if k < n {
            1int
        } else {
            0int
        },
    decreases n,
{
    if n > 0 {
        lemma_count_set_update(flags, k, n - 1);
    }
}

/// The state of a flood: the cells that the water has come to, those
/// among them from which it has spread already, and for each wet cell a
/// number of steps within which it is reached.
pub struct Flood {
    pub hit: Seq<bool>,
    pub solved: Seq<bool>,
    pub steps: Seq<nat>,
}

impl Flood {
    /// The state that the two buffers stand for.
    pub open spec fn of(hit: [bool; 81], solved: [bool; 81], steps: Seq<nat>) -> Flood {
        Flood { hit: hit@, solved: solved@, steps }
    }

    /// Every passable neighbour of the cell is wet.
    pub open spec fn closed_at(self, v: BoardView, k: int) -> bool {
        forall|d: Direction| #[trigger] v.passable(cell_at(k), d) ==> self.hit[slot_of(d.step(cell_at(k)))]
    }

    /// The invariant of the flood from `player`'s token: what is wet is
    /// reached and lies off the goal row; from what is solved the water
    /// has spread.
    pub open spec fn inv(self, v: BoardView, player: Player) -> bool {
        &&& self.hit.len() == 81
        &&& self.solved.len() == 81
        &&& self.steps.len() == 81
        &&& on_board(v.position(player))
        &&& self.hit[slot_of(v.position(player))]
        &&& forall|k: int|
            0 <= k < 81 && #[trigger] self.hit[k] ==> v.reach(v.position(player), cell_at(k), self.steps[k])
                && cell_at(k).1 != player.goal_row()
        &&& forall|k: int| 0 <= k < 81 && #[trigger] self.solved[k] ==> self.hit[k] && self.closed_at(v, k)
    }

    /// The flood after the water has come to one more cell.
    pub open spec fn wet(self, n: int, steps: nat) -> Flood {
        Flood { hit: self.hit.update(n, true), solved: self.solved, steps: self.steps.update(n, steps) }
    }

    /// The flood after the water has spread from one more cell.
    pub open spec fn spread(self, k: int) -> Flood {
        Flood { solved: self.solved.update(k, true), ..self }
    }
}

/// The flood may start with the token's cell wet, off the goal row.
pub proof fn lemma_flood_start(v: BoardView, player: Player, f: Flood)
    requires
        on_board(v.position(player)),
        v.position(player).1 != player.goal_row(),
        f.hit.len() == 81,
        f.solved.len() == 81,
        f.steps.len() == 81,
        f.steps[slot_of(v.position(player))] == 0,
        forall|k: int| 0 <= k < 81 ==> f.hit[k] == (k == slot_of(v.position(player))),
        forall|k: int| 0 <= k < 81 ==> !f.solved[k],
    ensures
        f.inv(v, player),
{
    let from = v.position(player);
    assert(cell_at(slot_of(from)) == from);
    assert(v.reach(from, from, 0));
}

/// A token that stands on its goal row has arrived.
pub proof fn lemma_exit_at_goal(v: BoardView, player: Player)
    requires
        on_board(v.position(player)),
        v.position(player).1 == player.goal_row(),
    ensures
        v.can_exit(player),
        v.goal_within(player, 0),
{
    let from = v.position(player);
    assert(v.reach(from, (from.0, player.goal_row()), 0));
    assert(v.goal_within(player, 0));
}

/// From a wet cell a passable step leads to the goal row: there is a
/// way out.
pub proof fn lemma_flood_goal(v: BoardView, player: Player, f: Flood, k: int, d: Direction)
    requires
        f.inv(v, player),
        0 <= k < 81,
        f.hit[k],
        v.passable(cell_at(k), d),
        d.step(cell_at(k)).1 == player.goal_row(),
    ensures
        v.can_exit(player),
{
    let from = v.position(player);
    lemma_reach_extend(v, from, cell_at(k), f.steps[k], d);
    let g = d.step(cell_at(k));
    assert(v.reach(from, (g.0, player.goal_row()), f.steps[k] + 1));
    assert(v.goal_within(player, f.steps[k] + 1));
}

/// From a wet cell a passable step leads to a dry cell off the goal
/// row: the water may come to it.
pub proof fn lemma_flood_wet(v: BoardView, player: Player, f: Flood, k: int, d: Direction)
    requires
        f.inv(v, player),
        0 <= k < 81,
        f.hit[k],
        v.passable(cell_at(k), d),
        d.step(cell_at(k)).1 != player.goal_row(),
    ensures
        0 <= slot_of(d.step(cell_at(k))) < 81,
        f.wet(slot_of(d.step(cell_at(k))), f.steps[k] + 1).inv(v, player),
{
    let from = v.position(player);
    let cn = d.step(cell_at(k));
    let n = slot_of(cn);
    assert(on_board(cn));
    assert(cell_at(n) == cn);
    lemma_reach_extend(v, from, cell_at(k), f.steps[k], d);
    let g = f.wet(n, f.steps[k] + 1);
    assert(0 <= slot_of(from) < 81);
    assert forall|j: int| 0 <= j < 81 && #[trigger] g.hit[j] implies v.reach(from, cell_at(j), g.steps[j])
        && cell_at(j).1 != player.goal_row() by {
        if j != n {
            assert(f.hit[j]);
        }
    }
    assert forall|j: int| 0 <= j < 81 && #[trigger] g.solved[j] implies g.hit[j] && g.closed_at(v, j) by {
        assert(f.solved[j]);
        assert(f.closed_at(v, j));
        assert forall|e: Direction| #[trigger] v.passable(cell_at(j), e) implies g.hit[slot_of(e.step(cell_at(j)))] by {
            assert(f.hit[slot_of(e.step(cell_at(j)))]);
            assert(on_board(e.step(cell_at(j))));
        }
    }
}

/// All passable neighbours of a wet cell are wet: the cell is solved,
/// and one more cell is.
pub proof fn lemma_flood_spread(v: BoardView, player: Player, f: Flood, k: int)
    requires
        f.inv(v, player),
        0 <= k < 81,
        f.hit[k],
        !f.solved[k],
        f.closed_at(v, k),
    ensures
        f.spread(k).inv(v, player),
        count_set(f.spread(k).solved, 81) == count_set(f.solved, 81) + 1,
        count_set(f.spread(k).solved, 81) <= 81,
{
    let g = f.spread(k);
    lemma_count_set_update(f.solved, k, 81);
    lemma_count_set_bound(g.solved, 81);
    assert forall|j: int| 0 <= j < 81 && #[trigger] g.solved[j] implies g.hit[j] && g.closed_at(v, j) by {
        if j != k {
            assert(f.solved[j]);
            assert(f.closed_at(v, j));
        }
    }
}

/// The water has spread from every wet cell and has not come to the
/// goal row: there is no way out.
pub proof fn lemma_flood_done(v: BoardView, player: Player, f: Flood)
    requires
        f.inv(v, player),
        forall|k: int| 0 <= k < 81 && f.hit[k] ==> f.solved[k],
    ensures
        !v.can_exit(player),
{
    let from = v.position(player);
    let region = Set::new(|c: (int, int)| on_board(c) && f.hit[slot_of(c)]);
    assert forall|c: (int, int), d: Direction| region.contains(c) && #[trigger] v.passable(c, d) implies region.contains(
        d.step(c),
    ) by {
        let k = slot_of(c);
        assert(0 <= k < 81);
        assert(cell_at(k) == c);
        assert(f.solved[k]);
        assert(f.closed_at(v, k));
    }
    assert forall|n: nat| !v.goal_within(player, n) by {
        if v.goal_within(player, n) {
            let x = choose|x: int| 0 <= x < 9 && #[trigger] v.reach(from, (x, player.goal_row()), n);
            let g = (x, player.goal_row());
            lemma_reach_closed(v, from, region, g, n);
            let kg = slot_of(g);
            assert(0 <= kg < 81);
            assert(cell_at(kg) == g);
            assert(f.hit[kg]);
        }
    }
}

} // verus!
