//! The rule of the game: which cells live in the next generation.

use crate::lattice::{in_lattice, Cell};
use vstd::prelude::*;

verus! {

/// One if `c` is live in `s`, zero if it is dead.
pub open spec fn lives(s: Set<Cell>, c: Cell) -> nat {
    if s.contains(c) {
        1
    } else {
        0
    }
}

/// The number of live cells among the eight cells around `c`.
pub open spec fn live_neighbors(s: Set<Cell>, c: Cell) -> nat {
    lives(s, (c.0 - 1, c.1 - 1)) + lives(s, (c.0, c.1 - 1)) + lives(s, (c.0 + 1, c.1 - 1))
        + lives(s, (c.0 - 1, c.1)) + lives(s, (c.0 + 1, c.1))
        + lives(s, (c.0 - 1, c.1 + 1)) + lives(s, (c.0, c.1 + 1)) + lives(s, (c.0 + 1, c.1 + 1))
}

/// Whether `c` is live in the generation after `s`: it has exactly three live
/// neighbors, or it has exactly two and is live already.
pub open spec fn alive_next(s: Set<Cell>, c: Cell) -> bool {
    live_neighbors(s, c) == 3 || (live_neighbors(s, c) == 2 && s.contains(c))
}

/// The generation after `s` on the unbounded lattice.
pub open spec fn next_generation(s: Set<Cell>) -> Set<Cell> {
    Set::new(|c: Cell| alive_next(s, c))
}

/// The cells of `s` that a pair of `i32` can name.
pub open spec fn lattice_part(s: Set<Cell>) -> Set<Cell> {
    Set::new(|c: Cell| s.contains(c) && in_lattice(c))
}

/// Whether every cell of `s` lies in the lattice and off its outermost
/// columns and rows, so that all its neighbors lie in the lattice too.
pub open spec fn inside_lattice(s: Set<Cell>) -> bool {
    forall|c: Cell| #[trigger]
        s.contains(c) ==> i32::MIN < c.0 < i32::MAX && i32::MIN < c.1 < i32::MAX
}

/// Nothing comes of nothing: the generation after the empty set is empty.
pub proof fn lemma_stasis()
    ensures
        next_generation(Set::<Cell>::empty()) == Set::<Cell>::empty(),
{
    assert(next_generation(Set::<Cell>::empty()) =~= Set::<Cell>::empty());
}

/// Underpopulation: a cell with fewer than two live neighbors is dead in the
/// next generation, whether it was live or not.
pub proof fn lemma_underpopulation(s: Set<Cell>, c: Cell)
    requires
        live_neighbors(s, c) < 2,
    ensures
        !next_generation(s).contains(c),
{
}

/// Overpopulation: a cell with four or more live neighbors is dead in the
/// next generation, even if it was live.
pub proof fn lemma_overpopulation(s: Set<Cell>, c: Cell)
    requires
        live_neighbors(s, c) >= 4,
    ensures
        !next_generation(s).contains(c),
{
}

/// Birth: a dead cell with exactly three live neighbors is live in the next
/// generation.
pub proof fn lemma_birth(s: Set<Cell>, c: Cell)
    requires
        !s.contains(c),
        live_neighbors(s, c) == 3,
    ensures
        next_generation(s).contains(c),
{
}

/// Survival: a live cell with two or three live neighbors stays live.
pub proof fn lemma_survival(s: Set<Cell>, c: Cell)
    requires
        s.contains(c),
        live_neighbors(s, c) == 2 || live_neighbors(s, c) == 3,
    ensures
        next_generation(s).contains(c),
{
}

/// A pattern that keeps off the edge of the lattice has its whole next
/// generation in the lattice.
pub proof fn lemma_next_generation_fits(s: Set<Cell>)
    requires
        inside_lattice(s),
    ensures
        lattice_part(next_generation(s)) == next_generation(s),
{
    assert forall|c: Cell| next_generation(s).contains(c) implies in_lattice(c) by {
        assert(live_neighbors(s, c) >= 2);
    }
    assert(lattice_part(next_generation(s)) =~= next_generation(s));
}

} // verus!
