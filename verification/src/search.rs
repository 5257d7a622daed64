//! The breadth-first search for a goal row, as a ghost state with its
//! invariant. The executable search keeps two buffers of 81 bytes, one
//! mark per cell and a queue of cells; the lemmas here say why its
//! answers are shortest distances.

use vstd::prelude::*;
use crate::moves::{on_board, Direction, Player};
use crate::rules::BoardView;
use crate::paths::{lemma_reach_closed, lemma_reach_extend, lemma_reach_last, lemma_reach_on_board, lemma_step_back};

verus! {

/// The mark of a cell that the search has not come to.
pub const UNSEEN: u8 = 0xff;

/// The place of a cell in the buffers.
pub open spec fn slot_of(c: (int, int)) -> int {
    c.1 * 9 + c.0
}

/// The cell that has a place in the buffers.
pub open spec fn cell_at(k: int) -> (int, int) {
    (k % 9, k / 9)
}

/// How many of the first `n` cells carry a mark.
pub open spec fn seen_count(marks: Seq<u8>, n: int) -> int
    decreases n,
{
    if n <= 0 {
        0
    } else {
        seen_count(marks, n - 1) + if marks[n - 1] != UNSEEN {
            1int
        } else {
            0int
        }
    }
}

proof fn lemma_seen_count_gap(marks: Seq<u8>, k: int, n: int)
    requires
        0 <= n <= marks.len(),
    ensures
        0 <= seen_count(marks, n) <= n,
        0 <= k < n && marks[k] == UNSEEN ==> seen_count(marks, n) < n,
    decreases n,
{
    if n > 0 {
        lemma_seen_count_gap(marks, k, n - 1);
    }
}

proof fn lemma_seen_count_update(marks: Seq<u8>, k: int, mark: u8, n: int)
    requires
        0 <= k < marks.len(),
        0 <= n <= marks.len(),
        marks[k] == UNSEEN,
        mark != UNSEEN,
    ensures
        seen_count(marks.update(k, mark), n) == seen_count(marks, n) + if k < n {
            1int
        } else {
            0int
        },
    decreases n,
{
    if n > 0 {
        lemma_seen_count_update(marks, k, mark, n - 1);
    }
}

proof fn lemma_seen_count_one(marks: Seq<u8>, k: int, n: int)
    requires
        0 <= k < marks.len(),
        0 <= n <= marks.len(),
        forall|j: int| 0 <= j < marks.len() ==> (marks[j] != UNSEEN <==> j == k),
    ensures
        seen_count(marks, n) == if k < n {
            1int
        } else {
            0int
        },
    decreases n,
{
    if n > 0 {
        lemma_seen_count_one(marks, k, n - 1);
    }
}

/// The state of a search: a mark for each cell, which is the cell's
/// distance from the start once the search has come to it; the queue of
/// the cells come to, in the order of their coming; for each such cell
/// its place in the queue; and the two ends of the part of the queue that
/// still waits.
pub struct Search {
    pub marks: Seq<u8>,
    pub queue: Seq<u8>,
    pub place: Seq<int>,
    pub head: int,
    pub tail: int,
}

impl Search {
    /// The state that the buffers and the two ends of the queue stand for.
    pub open spec fn of(marks: [u8; 81], queue: [u8; 81], place: Seq<int>, head: usize, tail: usize) -> Search {
        Search { marks: marks@, queue: queue@, place, head: head as int, tail: tail as int }
    }

    /// The search has come to the cell in place `k`.
    pub open spec fn seen(self, k: int) -> bool {
        self.marks[k] != UNSEEN
    }

    /// The mark of the cell in place `k`.
    pub open spec fn level(self, k: int) -> int {
        self.marks[k] as int
    }

    /// The place of the `i`-th cell of the queue.
    pub open spec fn at(self, i: int) -> int {
        self.queue[i] as int
    }

    /// The search as it is after a cell was marked and queued.
    pub open spec fn mark(self, k: int, mark: u8) -> Search {
        Search {
            marks: self.marks.update(k, mark),
            queue: self.queue.update(self.tail, k as u8),
            place: self.place.update(k, self.tail),
            head: self.head,
            tail: self.tail + 1,
        }
    }

    /// The search as it is after the first waiting cell was dealt with.
    pub open spec fn advance(self) -> Search {
        Search { head: self.head + 1, ..self }
    }

    /// The queue holds the marked cells, each once.
    pub open spec fn shaped(self) -> bool {
        &&& self.marks.len() == 81
        &&& self.queue.len() == 81
        &&& self.place.len() == 81
        &&& 0 <= self.head <= self.tail <= 81
        &&& self.tail == seen_count(self.marks, 81)
        &&& forall|i: int|
            0 <= i < self.tail ==> {
                &&& 0 <= #[trigger] self.at(i) < 81
                &&& self.seen(self.at(i))
                &&& self.place[self.at(i)] == i
                &&& self.level(self.at(i)) <= i
            }
        &&& forall|k: int|
            0 <= k < 81 && #[trigger] self.seen(k) ==> 0 <= self.place[k] < self.tail && self.at(
                self.place[k],
            ) == k
    }

    /// Along the queue the marks do not fall, and they span at most two
    /// levels among the waiting cells.
    pub open spec fn ordered(self) -> bool {
        &&& forall|i: int, j: int|
            0 <= i <= j < self.tail ==> self.level(#[trigger] self.at(i)) <= self.level(
                #[trigger] self.at(j),
            )
        &&& self.head < self.tail ==> self.level(self.at(self.tail - 1)) <= self.level(self.at(self.head))
            + 1
    }

    /// A marked cell is reached within as many steps as its mark says.
    pub open spec fn sound(self, v: BoardView, from: (int, int)) -> bool {
        &&& on_board(from)
        &&& self.seen(slot_of(from))
        &&& forall|k: int|
            0 <= k < 81 && #[trigger] self.seen(k) ==> v.reach(from, cell_at(k), self.level(k) as nat)
    }

    /// Whatever is reached within the level of the first waiting cell is
    /// marked, with no more than the steps it took.
    pub open spec fn complete(self, v: BoardView, from: (int, int)) -> bool {
        self.head < self.tail ==> forall|c: (int, int), n: nat| #[trigger]
            v.reach(from, c, n) && n <= self.level(self.at(self.head)) ==> self.seen(slot_of(c))
                && self.level(slot_of(c)) <= n
    }

    /// Every passable neighbour of the cell is marked.
    pub open spec fn closed_at(self, v: BoardView, k: int) -> bool {
        forall|d: Direction| #[trigger]
            v.passable(cell_at(k), d) ==> self.seen(slot_of(d.step(cell_at(k))))
    }

    /// The cells dealt with lie off the goal row and have all their
    /// passable neighbours marked.
    pub open spec fn settled(self, v: BoardView, goal: int) -> bool {
        forall|i: int|
            0 <= i < self.head ==> cell_at(#[trigger] self.at(i)).1 != goal && self.closed_at(
                v,
                self.at(i),
            )
    }

    /// The invariant of the search for `player`'s goal row.
    pub open spec fn inv(self, v: BoardView, player: Player) -> bool {
        &&& self.shaped()
        &&& self.ordered()
        &&& self.sound(v, v.position(player))
        &&& self.complete(v, v.position(player))
        &&& self.settled(v, player.goal_row())
    }
}

/// The search may start with the token's cell marked 0 and queued.
pub proof fn lemma_search_start(v: BoardView, player: Player, s: Search)
    requires
        on_board(v.position(player)),
        s.marks.len() == 81,
        s.queue.len() == 81,
        s.place.len() == 81,
        s.head == 0,
        s.tail == 1,
        s.at(0) == slot_of(v.position(player)),
        s.place[slot_of(v.position(player))] == 0,
        forall|k: int| 0 <= k < 81 ==> s.marks[k] == (if k == slot_of(v.position(player)) { 0u8 } else { UNSEEN }),
    ensures
        s.inv(v, player),
{
    let from = v.position(player);
    let k0 = slot_of(from);
    lemma_seen_count_one(s.marks, k0, 81);
    assert(cell_at(k0) == from);
    assert(v.reach(from, from, 0));
    assert forall|c: (int, int), n: nat| #[trigger] v.reach(from, c, n) && n <= s.level(s.at(s.head)) implies s.seen(
        slot_of(c),
    ) && s.level(slot_of(c)) <= n by {
        assert(c == from);
    }
}

/// The first waiting cell has an unmarked passable neighbour: there is
/// room to queue it, and with the next level for its mark the invariant
/// stands.
pub proof fn lemma_search_mark(v: BoardView, player: Player, s: Search, d: Direction)
    requires
        s.inv(v, player),
        s.head < s.tail,
        v.passable(cell_at(s.at(s.head)), d),
        !s.seen(slot_of(d.step(cell_at(s.at(s.head))))),
    ensures
        s.tail < 81,
        s.level(s.at(s.head)) < 80,
        0 <= slot_of(d.step(cell_at(s.at(s.head)))) < 81,
        s.mark(slot_of(d.step(cell_at(s.at(s.head)))), (s.level(s.at(s.head)) + 1) as u8).inv(v, player),
{
    let from = v.position(player);
    let u = s.at(s.head);
    let cu = cell_at(u);
    let cn = d.step(cu);
    let n = slot_of(cn);
    let lu = s.level(u);
    assert(on_board(cn));
    assert(0 <= n < 81);
    assert(cell_at(n) == cn);
    lemma_seen_count_gap(s.marks, n, 81);
    assert(s.tail < 81);
    assert(lu <= s.head);
    let m = (lu + 1) as u8;
    assert(m != UNSEEN);
    let t = s.mark(n, m);
    lemma_seen_count_update(s.marks, n, m, 81);
    // shape
    assert forall|i: int| 0 <= i < t.tail implies {
        &&& 0 <= #[trigger] t.at(i) < 81
        &&& t.seen(t.at(i))
        &&& t.place[t.at(i)] == i
        &&& t.level(t.at(i)) <= i
    } by {
        if i < s.tail {
            assert(s.seen(s.at(i)));
            assert(s.at(i) != n);
        }
    }
    assert forall|k: int| 0 <= k < 81 && #[trigger] t.seen(k) implies 0 <= t.place[k] < t.tail && t.at(
        t.place[k],
    ) == k by {
        if k != n {
            assert(s.seen(k));
        }
    }
    assert(t.shaped());
    // order
    assert forall|i: int, j: int| 0 <= i <= j < t.tail implies t.level(#[trigger] t.at(i)) <= t.level(
        #[trigger] t.at(j),
    ) by {
        if i < s.tail {
            assert(s.seen(s.at(i)));
            assert(s.at(i) != n);
            if j < s.tail {
                assert(s.seen(s.at(j)));
                assert(s.at(j) != n);
                assert(s.level(s.at(i)) <= s.level(s.at(j)));
            } else {
                assert(s.level(s.at(i)) <= s.level(s.at(s.tail - 1)));
            }
        }
    }
    assert(s.seen(s.at(s.head)));
    assert(t.at(t.head) == u);
    assert(t.level(u) == lu);
    assert(t.ordered());
    // soundness
    assert(s.seen(u));
    assert(v.reach(from, cu, lu as nat));
    lemma_reach_extend(v, from, cu, lu as nat, d);
    assert forall|k: int| 0 <= k < 81 && #[trigger] t.seen(k) implies v.reach(
        from,
        cell_at(k),
        t.level(k) as nat,
    ) by {
        if k != n {
            assert(s.seen(k));
        }
    }
    assert(s.seen(slot_of(from)));
    assert(t.sound(v, from));
    // completeness
    assert forall|c: (int, int), k: nat| #[trigger] v.reach(from, c, k) && k <= t.level(t.at(t.head)) implies t.seen(
        slot_of(c),
    ) && t.level(slot_of(c)) <= k by {
        lemma_reach_on_board(v, from, c, k);
        assert(s.seen(slot_of(c)) && s.level(slot_of(c)) <= k);
        assert(slot_of(c) != n);
    }
    assert(t.complete(v, from));
    // settled
    assert forall|i: int| 0 <= i < t.head implies cell_at(#[trigger] t.at(i)).1 != player.goal_row()
        && t.closed_at(v, t.at(i)) by {
        assert(s.closed_at(v, s.at(i)));
        assert forall|e: Direction| #[trigger] v.passable(cell_at(t.at(i)), e) implies t.seen(
            slot_of(e.step(cell_at(t.at(i)))),
        ) by {
            assert(s.seen(slot_of(e.step(cell_at(s.at(i))))));
        }
    }
    assert(t.settled(v, player.goal_row()));
}

proof fn lemma_advance_reached(v: BoardView, from: (int, int), goal: int, s: Search, c: (int, int), k: nat)
    requires
        s.shaped(),
        s.ordered(),
        s.complete(v, from),
        s.settled(v, goal),
        s.head + 1 < s.tail,
        s.closed_at(v, s.at(s.head)),
        v.reach(from, c, k),
        k <= s.level(s.at(s.head + 1)),
    ensures
        s.seen(slot_of(c)),
        s.level(slot_of(c)) <= k,
{
    let lu = s.level(s.at(s.head));
    assert(s.level(s.at(s.tail - 1)) <= lu + 1);
    assert(s.level(s.at(s.head + 1)) <= s.level(s.at(s.tail - 1)));
    if k <= lu {
        assert(s.seen(slot_of(c)) && s.level(slot_of(c)) <= k);
    } else {
        let j = (k - 1) as nat;
        if v.reach(from, c, j) {
            assert(s.seen(slot_of(c)) && s.level(slot_of(c)) <= j);
        } else {
            let d = lemma_reach_last(v, from, c, j);
            let p = d.step(c);
            lemma_step_back(v, c, d);
            let kp = slot_of(p);
            assert(s.seen(kp) && s.level(kp) <= j);
            assert(on_board(p));
            assert(0 <= kp < 81);
            assert(cell_at(kp) == p);
            let i = s.place[kp];
            assert(s.at(i) == kp);
            if i > s.head {
                assert(s.level(s.at(s.head + 1)) <= s.level(s.at(i)));
            }
            assert(i <= s.head);
            assert(s.closed_at(v, s.at(i)));
            assert(v.passable(cell_at(kp), d.reverse()));
            let kc = slot_of(c);
            assert(s.seen(kc));
            assert(on_board(c));
            assert(0 <= kc < 81);
            let ic = s.place[kc];
            assert(s.at(ic) == kc);
            assert(s.level(s.at(ic)) <= s.level(s.at(s.tail - 1)));
        }
    }
}

proof fn lemma_advance_shaped(s: Search)
    requires
        s.shaped(),
        s.ordered(),
        s.head < s.tail,
    ensures
        s.advance().shaped(),
        s.advance().ordered(),
{
    let t = s.advance();
    assert forall|i: int| 0 <= i < t.tail implies {
        &&& 0 <= #[trigger] t.at(i) < 81
        &&& t.seen(t.at(i))
        &&& t.place[t.at(i)] == i
        &&& t.level(t.at(i)) <= i
    } by {
        assert(0 <= s.at(i) < 81);
    }
    assert forall|k: int| 0 <= k < 81 && #[trigger] t.seen(k) implies 0 <= t.place[k] < t.tail && t.at(
        t.place[k],
    ) == k by {
        assert(s.seen(k));
    }
    assert forall|i: int, j: int| 0 <= i <= j < t.tail implies t.level(#[trigger] t.at(i)) <= t.level(
        #[trigger] t.at(j),
    ) by {
        assert(s.level(s.at(i)) <= s.level(s.at(j)));
    }
    if t.head < t.tail {
        assert(s.level(s.at(s.head)) <= s.level(s.at(s.head + 1)));
    }
}

/// The first waiting cell lies off the goal row and all its passable
/// neighbours are marked: the search may go on to the next cell.
pub proof fn lemma_search_advance(v: BoardView, player: Player, s: Search)
    requires
        s.inv(v, player),
        s.head < s.tail,
        cell_at(s.at(s.head)).1 != player.goal_row(),
        s.closed_at(v, s.at(s.head)),
    ensures
        s.advance().inv(v, player),
{
    let from = v.position(player);
    let t = s.advance();
    lemma_advance_shaped(s);
    assert(t.sound(v, from)) by {
        assert(s.seen(slot_of(from)));
        assert forall|k: int| 0 <= k < 81 && #[trigger] t.seen(k) implies v.reach(
            from,
            cell_at(k),
            t.level(k) as nat,
        ) by {
            assert(s.seen(k));
        }
    }
    assert(t.complete(v, from)) by {
        if t.head < t.tail {
            assert forall|c: (int, int), k: nat| #[trigger] v.reach(from, c, k) && k <= t.level(t.at(t.head)) implies t.seen(
                slot_of(c),
            ) && t.level(slot_of(c)) <= k by {
                lemma_advance_reached(v, from, player.goal_row(), s, c, k);
            }
        }
    }
    assert(t.settled(v, player.goal_row())) by {
        assert forall|i: int| 0 <= i < t.head implies cell_at(#[trigger] t.at(i)).1 != player.goal_row()
            && t.closed_at(v, t.at(i)) by {
            if i < s.head {
                assert(s.closed_at(v, s.at(i)));
            }
        }
    }
}

/// The first waiting cell lies on the goal row: its mark is the
/// shortest distance.
pub proof fn lemma_search_found(v: BoardView, player: Player, s: Search)
    requires
        s.inv(v, player),
        s.head < s.tail,
        cell_at(s.at(s.head)).1 == player.goal_row(),
    ensures
        s.level(s.at(s.head)) <= 80,
        v.is_distance(player, s.level(s.at(s.head)) as nat),
{
    let from = v.position(player);
    let u = s.at(s.head);
    let lu = s.level(u);
    let cu = cell_at(u);
    assert(s.seen(u));
    assert(lu <= s.head);
    assert(v.reach(from, (cu.0, player.goal_row()), lu as nat));
    assert(v.goal_within(player, lu as nat));
    assert forall|m: nat| m < lu implies !v.goal_within(player, m) by {
        if v.goal_within(player, m) {
            let x = choose|x: int| 0 <= x < 9 && #[trigger] v.reach(from, (x, player.goal_row()), m);
            let g = (x, player.goal_row());
            lemma_reach_on_board(v, from, g, m);
            let kg = slot_of(g);
            assert(s.seen(kg) && s.level(kg) <= m);
            assert(0 <= kg < 81);
            assert(cell_at(kg) == g);
            let i = s.place[kg];
            assert(s.at(i) == kg);
            if i >= s.head {
                assert(s.level(s.at(s.head)) <= s.level(s.at(i)));
            }
            assert(i < s.head);
            assert(cell_at(s.at(i)).1 != player.goal_row());
        }
    }
}

/// No cell waits any more: the goal row cannot be reached.
pub proof fn lemma_search_exhausted(v: BoardView, player: Player, s: Search)
    requires
        s.inv(v, player),
        s.head == s.tail,
    ensures
        forall|n: nat| !v.goal_within(player, n),
{
    let from = v.position(player);
    let region = Set::new(|c: (int, int)| on_board(c) && s.seen(slot_of(c)));
    assert forall|c: (int, int), d: Direction| region.contains(c) && #[trigger] v.passable(c, d) implies region.contains(
        d.step(c),
    ) by {
        let k = slot_of(c);
        assert(0 <= k < 81);
        assert(cell_at(k) == c);
        assert(s.seen(k));
        let i = s.place[k];
        assert(s.at(i) == k);
        assert(s.closed_at(v, s.at(i)));
    }
    assert forall|n: nat| !v.goal_within(player, n) by {
        if v.goal_within(player, n) {
            let x = choose|x: int| 0 <= x < 9 && #[trigger] v.reach(from, (x, player.goal_row()), n);
            let g = (x, player.goal_row());
            lemma_reach_closed(v, from, region, g, n);
            let kg = slot_of(g);
            assert(0 <= kg < 81);
            assert(cell_at(kg) == g);
            assert(s.seen(kg));
            let i = s.place[kg];
            assert(s.at(i) == kg);
            assert(cell_at(s.at(i)).1 != player.goal_row());
        }
    }
}

} // verus!
