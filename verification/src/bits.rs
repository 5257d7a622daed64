//! Walls as bits: intersection `(x, y)` is bit `x * 8 + y` of a 64-bit word.

use vstd::prelude::*;
use crate::moves::is_anchor;

verus! {

/// The bit that stands for the intersection `a`.
pub open spec fn bit_of(a: (int, int)) -> u64 {
    1u64 << ((a.0 * 8 + a.1) as u64)
}

/// The word holds a wall at the intersection `a`.
pub open spec fn wall_bit(bits: u64, a: (int, int)) -> bool {
    is_anchor(a) && bits & bit_of(a) != 0
}

/// The intersections at which the word holds a wall.
pub open spec fn anchors(bits: u64) -> Set<(int, int)> {
    Set::new(|a: (int, int)| wall_bit(bits, a))
}

proof fn lemma_bit_set(bits: u64, i: u64, j: u64)
    by (bit_vector)
    requires
        i < 64,
        j < 64,
    ensures
        ((bits | (1u64 << i)) & (1u64 << j) != 0) == (i == j || bits & (1u64 << j) != 0),
{
}

/// The test of a bit does not depend on the side the mask stands on.
pub proof fn lemma_and_commutes(bits: u64, m: u64)
    by (bit_vector)
    ensures
        bits & m == m & bits,
{
}

/// A mask of several bits misses a word exactly when each part does.
pub proof fn lemma_mask_union(bits: u64, m1: u64, m2: u64)
    by (bit_vector)
    ensures
        (bits & (m1 | m2) == 0) == (bits & m1 == 0 && bits & m2 == 0),
{
}

/// A union of two words holds a bit exactly when one of them does.
pub proof fn lemma_word_union(b1: u64, b2: u64, m: u64)
    by (bit_vector)
    ensures
        ((b1 | b2) & m == 0) == (b1 & m == 0 && b2 & m == 0),
{
}

/// The empty word holds no wall.
pub proof fn lemma_anchors_empty()
    ensures
        anchors(0) == Set::<(int, int)>::empty(),
{
    assert forall|a: (int, int)| !wall_bit(0, a) by {
        let m = bit_of(a);
        assert(0u64 & m == 0) by (bit_vector);
    }
    assert(anchors(0) =~= Set::<(int, int)>::empty());
}

/// Setting the bit of an intersection adds that intersection and no other.
pub proof fn lemma_anchors_insert(bits: u64, a: (int, int))
    requires
        is_anchor(a),
    ensures
        anchors(bits | bit_of(a)) == anchors(bits).insert(a),
{
    let i = (a.0 * 8 + a.1) as u64;
    assert forall|b: (int, int)|
        anchors(bits | bit_of(a)).contains(b) == #[trigger] anchors(bits).insert(a).contains(b) by {
        if is_anchor(b) {
            let j = (b.0 * 8 + b.1) as u64;
            lemma_bit_set(bits, i, j);
            assert(i == j <==> a == b);
        }
    }
    assert(anchors(bits | bit_of(a)) =~= anchors(bits).insert(a));
}

/// A mask that holds no bit misses every word.
pub proof fn lemma_mask_zero(bits: u64)
    by (bit_vector)
    ensures
        bits & 0 == 0,
{
}

/// The word with the order of the bits turned round in each byte: the
/// walls as they lie when the board is looked at from the other side.
pub open spec fn mirror_rows(n: u64) -> u64 {
    let a = ((n >> 4) & 0x0f0f0f0f0f0f0f0f) | ((n & 0x0f0f0f0f0f0f0f0f) << 4);
    let b = ((a >> 2) & 0x3333333333333333) | ((a & 0x3333333333333333) << 2);
    ((b >> 1) & 0x5555555555555555) | ((b & 0x5555555555555555) << 1)
}

proof fn lemma_mirror_bit(n: u64, i: u64)
    by (bit_vector)
    requires
        i < 64,
    ensures
        (mirror_rows(n) & (1u64 << i) != 0) == (n & (1u64 << (i ^ 7)) != 0),
{
}

proof fn lemma_mirror_index(x: u64, y: u64)
    by (bit_vector)
    requires
        x < 8,
        y < 8,
    ensures
        ((x * 8 + y) as u64) ^ 7 == ((x * 8 + (7 - y)) as u64),
{
}

/// Mirroring twice gives the word back.
pub proof fn lemma_mirror_twice(n: u64)
    by (bit_vector)
    ensures
        mirror_rows(mirror_rows(n)) == n,
{
}

/// The mirrored word holds a wall at `(x, y)` exactly where the word
/// holds one at `(x, 7 - y)`.
pub proof fn lemma_anchors_mirror(bits: u64)
    ensures
        anchors(mirror_rows(bits)) == Set::new(|a: (int, int)| anchors(bits).contains((a.0, 7 - a.1))),
{
    let mirrored = Set::new(|a: (int, int)| anchors(bits).contains((a.0, 7 - a.1)));
    assert forall|a: (int, int)| anchors(mirror_rows(bits)).contains(a) == #[trigger] mirrored.contains(a) by {
        if is_anchor(a) {
            let x = a.0 as u64;
            let y = a.1 as u64;
            lemma_mirror_index(x, y);
            lemma_mirror_bit(bits, (x * 8 + y) as u64);
        }
    }
    assert(anchors(mirror_rows(bits)) =~= mirrored);
}

proof fn lemma_some_bit_differs(a: u64, b: u64, hi: u64) -> (i: u64)
    requires
        a != b,
        hi <= 64,
        a >> hi == b >> hi,
    ensures
        i < hi,
        (a & (1u64 << i) != 0) != (b & (1u64 << i) != 0),
    decreases hi,
{
    assert(hi != 0) by (bit_vector)
        requires
            a != b,
            hi <= 64,
            a >> hi == b >> hi,
    ;
    let j = (hi - 1) as u64;
    if (a & (1u64 << j) != 0) != (b & (1u64 << j) != 0) {
        j
    } else {
        assert(a >> j == b >> j) by (bit_vector)
            requires
                0 < hi <= 64,
                j == hi - 1,
                a >> hi == b >> hi,
                (a & (1u64 << j) != 0) == (b & (1u64 << j) != 0),
        ;
        lemma_some_bit_differs(a, b, j)
    }
}

proof fn lemma_bit_place(i: u64)
    by (bit_vector)
    requires
        i < 64,
    ensures
        i / 8 < 8,
        i % 8 < 8,
        (i / 8) * 8 + i % 8 == i,
{
}

/// Two words that hold walls at the same intersections are one word.
pub proof fn lemma_anchors_tell_word(a: u64, b: u64)
    requires
        anchors(a) == anchors(b),
    ensures
        a == b,
{
    if a != b {
        assert(a >> 64 == b >> 64) by (bit_vector);
        let i = lemma_some_bit_differs(a, b, 64);
        lemma_bit_place(i);
        let at = ((i / 8) as int, (i % 8) as int);
        assert(bit_of(at) == 1u64 << i);
        assert(wall_bit(a, at) != wall_bit(b, at));
        assert(anchors(a).contains(at) == wall_bit(a, at));
        assert(anchors(b).contains(at) == wall_bit(b, at));
    }
}

} // verus!
