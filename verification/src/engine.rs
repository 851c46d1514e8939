//! One tick of the simulation: the live cells are replaced by their next
//! generation.

use crate::cells::{cell_at, cells_of, lemma_cells_of_next, LiveCells};
use crate::lattice::{
    cell_key, cell_of, in_lattice, key_cell, key_of, lemma_cell_key, lemma_key_cell, Cell,
};
use crate::rule::{
    alive_next, inside_lattice, lattice_part, lemma_next_generation_fits, live_neighbors,
    next_generation,
};
use std::collections::HashMap;
use vstd::prelude::*;
use vstd::std_specs::iter::IteratorSpec;

verus! {

/// The live neighbors counted so far for the cell with key `k`.
spec fn count_at(m: Map<u64, (u32, bool)>, k: u64) -> nat {
    if m.contains_key(k) {
        m[k].0 as nat
    } else {
        0
    }
}

/// Whether the cell with key `k` is recorded as live.
spec fn alive_at(m: Map<u64, (u32, bool)>, k: u64) -> bool {
    m.contains_key(k) && m[k].1
}

/// The candidates after the cell `c` was recorded as live.
spec fn marked(m: Map<u64, (u32, bool)>, c: Cell) -> Map<u64, (u32, bool)> {
    let k = key_of(c) as u64;
    m.insert(k, (count_at(m, k) as u32, true))
}

/// The candidates after the cell `c` was credited with one more live
/// neighbor. A cell outside the lattice is no candidate.
spec fn credited(m: Map<u64, (u32, bool)>, c: Cell) -> Map<u64, (u32, bool)> {
    let k = key_of(c) as u64;
    if in_lattice(c) {
        m.insert(k, ((count_at(m, k) + 1) as u32, alive_at(m, k)))
    } else {
        m
    }
}

/// The candidates after the live cell `p` was taken into account: `p` is
/// recorded as live, and each of the eight cells around it is credited.
spec fn tallied(m: Map<u64, (u32, bool)>, p: Cell) -> Map<u64, (u32, bool)> {
    let m0 = marked(m, p);
    let m1 = credited(m0, (p.0 - 1, p.1 - 1));
    let m2 = credited(m1, (p.0, p.1 - 1));
    let m3 = credited(m2, (p.0 + 1, p.1 - 1));
    let m4 = credited(m3, (p.0 - 1, p.1));
    let m5 = credited(m4, (p.0 + 1, p.1));
    let m6 = credited(m5, (p.0 - 1, p.1 + 1));
    let m7 = credited(m6, (p.0, p.1 + 1));
    credited(m7, (p.0 + 1, p.1 + 1))
}

/// What the candidates say of the cell `c`: its count and whether it is live.
spec fn tally_of(m: Map<u64, (u32, bool)>, c: Cell) -> (nat, bool) {
    (count_at(m, key_of(c) as u64), alive_at(m, key_of(c) as u64))
}

/// Whether the candidates hold, for every cell of the lattice, its number of
/// live neighbors in `done` and whether it is itself in `done`.
spec fn tallies(m: Map<u64, (u32, bool)>, done: Set<Cell>) -> bool {
    forall|c: Cell|
        in_lattice(c) ==> #[trigger] tally_of(m, c) == (live_neighbors(done, c), done.contains(c))
}

/// Whether a candidate with this count and this state lives on.
spec fn survives(entry: (u32, bool)) -> bool {
    entry.0 == 3 || (entry.0 == 2 && entry.1)
}

/// What the candidates say of `c` after `q` was recorded as live.
proof fn lemma_marked(m: Map<u64, (u32, bool)>, q: Cell, c: Cell)
    requires
        in_lattice(q),
        in_lattice(c),
    ensures
        tally_of(marked(m, q), c) == (tally_of(m, c).0, tally_of(m, c).1 || q == c),
{
    lemma_key_cell(q);
    lemma_key_cell(c);
}

/// What the candidates say of `c` after `q` was credited.
proof fn lemma_credited(m: Map<u64, (u32, bool)>, q: Cell, c: Cell)
    requires
        in_lattice(c),
        tally_of(m, c).0 < u32::MAX,
    ensures
        tally_of(credited(m, q), c) == (
            tally_of(m, c).0 + if q == c {
                1nat
            } else {
                0nat
            },
            tally_of(m, c).1,
        ),
{
    lemma_key_cell(c);
    if in_lattice(q) {
        lemma_key_cell(q);
    }
}

/// Taking one more live cell into account keeps the candidates in step with
/// the cells taken into account so far.
#[verifier::spinoff_prover]
proof fn lemma_tallied(m: Map<u64, (u32, bool)>, done: Set<Cell>, p: Cell)
    requires
        tallies(m, done),
        in_lattice(p),
        !done.contains(p),
    ensures
        tallies(tallied(m, p), done.insert(p)),
{
    let m0 = marked(m, p);
    let m1 = credited(m0, (p.0 - 1, p.1 - 1));
    let m2 = credited(m1, (p.0, p.1 - 1));
    let m3 = credited(m2, (p.0 + 1, p.1 - 1));
    let m4 = credited(m3, (p.0 - 1, p.1));
    let m5 = credited(m4, (p.0 + 1, p.1));
    let m6 = credited(m5, (p.0 - 1, p.1 + 1));
    let m7 = credited(m6, (p.0, p.1 + 1));
    let m8 = credited(m7, (p.0 + 1, p.1 + 1));
    assert forall|c: Cell| in_lattice(c) implies #[trigger] tally_of(m8, c) == (
        live_neighbors(done.insert(p), c),
        done.insert(p).contains(c),
    ) by {
        assert(tally_of(m, c) == (live_neighbors(done, c), done.contains(c)));
        lemma_marked(m, p, c);
        lemma_credited(m0, (p.0 - 1, p.1 - 1), c);
        lemma_credited(m1, (p.0, p.1 - 1), c);
        lemma_credited(m2, (p.0 + 1, p.1 - 1), c);
        lemma_credited(m3, (p.0 - 1, p.1), c);
        lemma_credited(m4, (p.0 + 1, p.1), c);
        lemma_credited(m5, (p.0 - 1, p.1 + 1), c);
        lemma_credited(m6, (p.0, p.1 + 1), c);
        lemma_credited(m7, (p.0 + 1, p.1 + 1), c);
    }
}

/// Records `cell` as live among the candidates, keeping its count.
fn as_living(cell: (i32, i32), candidates: &mut HashMap<u64, (u32, bool)>)
    ensures
        final(candidates)@ == marked(old(candidates)@, cell_at(cell)),
{
    let k = cell_key(cell.0, cell.1);
    let seen: Option<u32> = match candidates.get(&k) {
        Some(entry) => Some(entry.0),
        None => None,
    };
    match seen {
        Some(n) => {
            candidates.insert(k, (n, true));
        },
        None => {
            candidates.insert(k, (0, true));
        },
    }
}

/// Credits `cell` with one more live neighbor, keeping its state.
fn as_neighbor_to_living(cell: (i32, i32), candidates: &mut HashMap<u64, (u32, bool)>)
    requires
        tally_of(old(candidates)@, cell_at(cell)).0 < u32::MAX,
    ensures
        final(candidates)@ == credited(old(candidates)@, cell_at(cell)),
{
    let k = cell_key(cell.0, cell.1);
    let seen: Option<(u32, bool)> = match candidates.get(&k) {
        Some(entry) => Some((entry.0, entry.1)),
        None => None,
    };
    match seen {
        Some((living_neighbors, lives)) => {
            candidates.insert(k, (living_neighbors + 1, lives));
        },
        None => {
            candidates.insert(k, (1, false));
        },
    }
}

/// Credits the cell at column `x` and row `y` with one more live neighbor,
/// if the lattice has such a cell.
fn credit(x: i64, y: i64, candidates: &mut HashMap<u64, (u32, bool)>)
    requires
        in_lattice((x as int, y as int)) ==> tally_of(old(candidates)@, (x as int, y as int)).0
            < u32::MAX,
    ensures
        final(candidates)@ == credited(old(candidates)@, (x as int, y as int)),
        forall|c: Cell|
            in_lattice(c) ==> (#[trigger] tally_of(final(candidates)@, c)).0 <= tally_of(
                old(candidates)@,
                c,
            ).0 + 1,
{
    if -0x8000_0000 <= x && x <= 0x7fff_ffff && -0x8000_0000 <= y && y <= 0x7fff_ffff {
        as_neighbor_to_living((x as i32, y as i32), candidates);
    }
    proof {
        let q = (x as int, y as int);
        assert forall|c: Cell| in_lattice(c) implies (#[trigger] tally_of(candidates@, c)).0
            <= tally_of(old(candidates)@, c).0 + 1 by {
            lemma_key_cell(c);
            if in_lattice(q) {
                lemma_key_cell(q);
            }
        }
    }
}

/// Takes the live cell `cell` into account: records it as live and credits
/// the eight cells around it.
fn tally(cell: (i32, i32), candidates: &mut HashMap<u64, (u32, bool)>)
    requires
        forall|c: Cell| in_lattice(c) ==> (#[trigger] tally_of(old(candidates)@, c)).0 <= 8,
    ensures
        final(candidates)@ == tallied(old(candidates)@, cell_at(cell)),
{
    let x: i64 = cell.0 as i64;
    let y: i64 = cell.1 as i64;
    as_living(cell, candidates);
    proof {
        assert forall|c: Cell| in_lattice(c) implies (#[trigger] tally_of(candidates@, c)).0
            <= 8 by {
            lemma_marked(old(candidates)@, cell_at(cell), c);
        }
    }
    credit(x - 1, y - 1, candidates);
    credit(x, y - 1, candidates);
    credit(x + 1, y - 1, candidates);
    credit(x - 1, y, candidates);
    credit(x + 1, y, candidates);
    credit(x - 1, y + 1, candidates);
    credit(x, y + 1, candidates);
    credit(x + 1, y + 1, candidates);
}

/// Advances the live cells by one generation.
///
/// Every live cell and each of the eight cells around it becomes a
/// candidate, with the number of its live neighbors and whether it is live
/// now. The live cells are then replaced by the candidates that have three
/// live neighbors, or two and are live now. A cell beyond the edge of the
/// lattice is never a candidate, so what comes out is the part of the next
/// generation that the lattice holds: all of it, unless a live cell touched
/// the edge.
#[verifier::spinoff_prover]
pub fn update_living_cells(living_cells: &mut LiveCells)
    ensures
        final(living_cells)@ == lattice_part(next_generation(old(living_cells)@)),
        inside_lattice(old(living_cells)@) ==> final(living_cells)@ == next_generation(
            old(living_cells)@,
        ),
{
    let ghost before = living_cells@;
    let list = living_cells.cells();
    let mut candidates: HashMap<u64, (u32, bool)> = HashMap::new();
    let mut i: usize = 0;
    assert(cells_of(list@.take(0)) =~= Set::<Cell>::empty());
    while i < list.len()
        invariant
            0 <= i <= list.len(),
            list@.no_duplicates(),
            tallies(candidates@, cells_of(list@.take(i as int))),
        decreases list.len() - i,
    {
        proof {
            lemma_cells_of_next(list@, i as int);
            lemma_tallied(candidates@, cells_of(list@.take(i as int)), cell_at(list@[i as int]));
        }
        tally(list[i], &mut candidates);
        i += 1;
    }
    assert(list@.take(list@.len() as int) == list@);

    living_cells.clear();
    let ghost walk = vstd::std_specs::hash::spec_hash_map_iter(&candidates).remaining();
    proof {
        vstd::std_specs::hash::axiom_spec_hash_map_iter(&candidates);
    }
    for entry in it: candidates.iter()
        invariant
            it.seq() == walk,
            forall|c: Cell|
                living_cells@.contains(c) <==> exists|j: int|
                    0 <= j < it.index() && cell_of(*(#[trigger] walk[j]).0 as int) == c && survives(
                        *walk[j].1,
                    ),
    {
        let (k, state) = entry;
        if state.0 == 3 || (state.0 == 2 && state.1) {
            living_cells.insert(key_cell(*k));
        }
    }
    proof {
        assert forall|c: Cell| in_lattice(c) implies (living_cells@.contains(c) <==> alive_next(
            before,
            c,
        )) by {
            lemma_key_cell(c);
            let k = key_of(c) as u64;
            assert(tally_of(candidates@, c) == (live_neighbors(before, c), before.contains(c)));
            if living_cells@.contains(c) {
                let j = choose|j: int|
                    0 <= j < walk.len() && cell_of(*(#[trigger] walk[j]).0 as int) == c && survives(
                        *walk[j].1,
                    );
                lemma_cell_key(*walk[j].0 as int);
                assert(candidates@.contains_key(*walk[j].0));
            }
            if alive_next(before, c) {
                assert(candidates@.contains_key(k));
                assert(walk.contains((&k, &candidates@[k])));
            }
        }
        living_cells.lemma_view();
        assert(living_cells@ =~= lattice_part(next_generation(before)));
        if inside_lattice(before) {
            lemma_next_generation_fits(before);
        }
    }
}

} // verus!
