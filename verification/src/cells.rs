//! The set of live cells.

use crate::lattice::{
    cell_key, cell_of, in_lattice, key_cell, key_of, lemma_cell_key, lemma_key_cell, Cell,
};
use std::collections::HashSet;
use vstd::prelude::*;
use vstd::std_specs::iter::IteratorSpec;

verus! {

/// The cell that a pair of machine integers names.
pub open spec fn cell_at(c: (i32, i32)) -> Cell {
    (c.0 as int, c.1 as int)
}

/// The cells that a sequence of pairs names, as a set.
pub open spec fn cells_of(s: Seq<(i32, i32)>) -> Set<Cell> {
    Set::new(|c: Cell| exists|i: int| 0 <= i < s.len() && cell_at(#[trigger] s[i]) == c)
}

/// The cells named by the first `i + 1` pairs of a sequence without
/// duplicates are those named by the first `i`, and the cell that the pair at
/// `i` names, which is not among them.
pub proof fn lemma_cells_of_next(s: Seq<(i32, i32)>, i: int)
    requires
        s.no_duplicates(),
        0 <= i < s.len(),
    ensures
        !cells_of(s.take(i)).contains(cell_at(s[i])),
        cells_of(s.take(i + 1)) == cells_of(s.take(i)).insert(cell_at(s[i])),
{
    let done = cells_of(s.take(i));
    let more = cells_of(s.take(i + 1));
    let p = cell_at(s[i]);
    if done.contains(p) {
        let j = choose|j: int| 0 <= j < s.take(i).len() && cell_at(#[trigger] s.take(i)[j]) == p;
        assert(s[j] == s[i]);
    }
    assert forall|c: Cell| done.insert(p).contains(c) implies more.contains(c) by {
        if c == p {
            assert(cell_at(s.take(i + 1)[i]) == c);
        } else {
            let j = choose|j: int|
                0 <= j < s.take(i).len() && cell_at(#[trigger] s.take(i)[j]) == c;
            assert(cell_at(s.take(i + 1)[j]) == c);
        }
    }
    assert forall|c: Cell| more.contains(c) implies done.insert(p).contains(c) by {
        let j = choose|j: int|
            0 <= j < s.take(i + 1).len() && cell_at(#[trigger] s.take(i + 1)[j]) == c;
        if j < i {
            assert(cell_at(s.take(i)[j]) == c);
        }
    }
    assert(more =~= done.insert(p));
}

/// A finite set of live cells. A cell that is not in the set is dead.
///
/// The set holds cells of the lattice only: those whose column and row are
/// both `i32` values.
pub struct LiveCells {
    keys: HashSet<u64>,
}

impl View for LiveCells {
    type V = Set<Cell>;

    closed spec fn view(&self) -> Set<Cell> {
        Set::new(|c: Cell| in_lattice(c) && self.keys@.contains(key_of(c) as u64))
    }
}

impl LiveCells {
    /// A live cell lies in the lattice, and there are finitely many of them.
    pub proof fn lemma_view(&self)
        ensures
            self@.finite(),
            forall|c: Cell| #[trigger] self@.contains(c) ==> in_lattice(c),
    {
        self.lemma_keys();
    }

    /// The cells are the keys, each read as a cell, and there are as many.
    proof fn lemma_keys(&self)
        ensures
            self@ == self.keys@.map(|k: u64| cell_of(k as int)),
            self@.finite(),
            self@.len() == self.keys@.len(),
    {
        let f = |k: u64| cell_of(k as int);
        let image = self.keys@.map(f);
        assert forall|c: Cell| self@.contains(c) <==> image.contains(c) by {
            if self@.contains(c) {
                lemma_key_cell(c);
                let k = key_of(c) as u64;
                assert(self.keys@.contains(k) && f(k) == c);
            }
            if image.contains(c) {
                let k = choose|k: u64| self.keys@.contains(k) && c == f(k);
                lemma_cell_key(k as int);
            }
        }
        assert(self@ =~= image);
        assert(vstd::relations::injective_on(f, self.keys@)) by {
            assert forall|a: u64, b: u64| #[trigger] f(a) == #[trigger] f(b) implies a == b by {
                lemma_cell_key(a as int);
                lemma_cell_key(b as int);
            }
        }
        assert(self.keys@.finite()) by {
            let walk = vstd::std_specs::hash::spec_hash_keys_iter(&self.keys).remaining().unref();
            vstd::std_specs::hash::axiom_spec_hash_keys_iter(&self.keys);
            vstd::seq_lib::seq_to_set_is_finite(walk);
        }
        vstd::set_lib::lemma_map_size(self.keys@, image, f);
    }

    /// The empty set.
    pub fn new() -> (cells: LiveCells)
        ensures
            cells@ == Set::<Cell>::empty(),
    {
        let cells = LiveCells { keys: HashSet::new() };
        assert(cells@ =~= Set::<Cell>::empty());
        cells
    }

    /// Makes `cell` live. Returns whether it was dead before.
    pub fn insert(&mut self, cell: (i32, i32)) -> (fresh: bool)
        ensures
            final(self)@ == old(self)@.insert(cell_at(cell)),
            fresh == !old(self)@.contains(cell_at(cell)),
    {
        let k = cell_key(cell.0, cell.1);
        let fresh = self.keys.insert(k);
        proof {
            lemma_key_cell(cell_at(cell));
            assert forall|c: Cell| in_lattice(c) && key_of(c) == key_of(cell_at(cell)) implies c
                == cell_at(cell) by {
                lemma_key_cell(c);
            }
            assert(self@ =~= old(self)@.insert(cell_at(cell)));
        }
        fresh
    }

    /// Makes `cell` dead. Returns whether it was live before.
    pub fn remove(&mut self, cell: &(i32, i32)) -> (was_live: bool)
        ensures
            final(self)@ == old(self)@.remove(cell_at(*cell)),
            was_live == old(self)@.contains(cell_at(*cell)),
    {
        let k = cell_key(cell.0, cell.1);
        let was_live = self.keys.remove(&k);
        proof {
            lemma_key_cell(cell_at(*cell));
            assert forall|c: Cell| in_lattice(c) && key_of(c) == key_of(cell_at(*cell)) implies c
                == cell_at(*cell) by {
                lemma_key_cell(c);
            }
            assert(self@ =~= old(self)@.remove(cell_at(*cell)));
        }
        was_live
    }

    /// Whether `cell` is live.
    pub fn contains(&self, cell: &(i32, i32)) -> (live: bool)
        ensures
            live == self@.contains(cell_at(*cell)),
    {
        let k = cell_key(cell.0, cell.1);
        proof {
            lemma_key_cell(cell_at(*cell));
        }
        self.keys.contains(&k)
    }

    /// The number of live cells.
    pub fn len(&self) -> (n: usize)
        ensures
            n == self@.len(),
    {
        proof {
            self.lemma_keys();
        }
        self.keys.len()
    }

    /// Whether no cell is live.
    pub fn is_empty(&self) -> (empty: bool)
        ensures
            empty == (self@ == Set::<Cell>::empty()),
    {
        proof {
            self.lemma_keys();
            vstd::set_lib::lemma_set_empty_equivalency_len(self@);
        }
        self.keys.len() == 0
    }

    /// The live cells, each once, in no particular order.
    pub fn cells(&self) -> (list: Vec<(i32, i32)>)
        ensures
            cells_of(list@) == self@,
            list@.no_duplicates(),
            list@.len() == self@.len(),
    {
        let ghost walk = vstd::std_specs::hash::spec_hash_keys_iter(&self.keys).remaining();
        proof {
            vstd::std_specs::hash::axiom_spec_hash_keys_iter(&self.keys);
            self.lemma_keys();
        }
        let mut list: Vec<(i32, i32)> = Vec::new();
        for k in it: self.keys.iter()
            invariant
                it.seq() == walk,
                list@.len() == it.index(),
                forall|i: int|
                    0 <= i < list@.len() ==> cell_at(#[trigger] list@[i]) == cell_of(
                        *walk[i] as int,
                    ),
        {
            list.push(key_cell(*k));
        }
        proof {
            assert forall|i: int, j: int| 0 <= i < j < list@.len() implies list@[i] != list@[j] by {
                lemma_cell_key(*walk[i] as int);
                lemma_cell_key(*walk[j] as int);
            }
            assert forall|c: Cell| self@.contains(c) implies cells_of(list@).contains(c) by {
                lemma_key_cell(c);
                let k = key_of(c) as u64;
                assert(walk.unref().to_set().contains(k));
                let i = choose|i: int| 0 <= i < walk.unref().len() && walk.unref()[i] == k;
                assert(cell_at(list@[i]) == c);
            }
            assert forall|c: Cell| cells_of(list@).contains(c) implies self@.contains(c) by {
                let i = choose|i: int| 0 <= i < list@.len() && cell_at(#[trigger] list@[i]) == c;
                lemma_cell_key(*walk[i] as int);
                assert(walk.unref()[i] == *walk[i]);
                assert(walk.unref().to_set().contains(*walk[i]));
            }
            assert(cells_of(list@) =~= self@);
        }
        list
    }

    /// Makes every cell dead.
    pub fn clear(&mut self)
        ensures
            final(self)@ == Set::<Cell>::empty(),
    {
        self.keys.clear();
        assert(self@ =~= Set::<Cell>::empty());
    }
}

} // verus!
