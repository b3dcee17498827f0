//! The obstacle field: a set of blocked grid cells, queried once per
//! simulation tick.  Cells are world-unit coordinates snapped to
//! multiples of `CELL`; the simulation only ever reads the field.

use vstd::prelude::*;
use crate::arith::{snap_coord, snap_spec};
use crate::config::{CELL, POS_LIMIT};

verus! {

/// The set of cells a sequence of stored coordinates denotes.
pub open spec fn cells_set(s: Seq<(i64, i64)>) -> Set<(int, int)>
    decreases s.len(),
{
    if s.len() == 0 {
        Set::empty()
    } else {
        cells_set(s.drop_last()).insert((s.last().0 as int, s.last().1 as int))
    }
}

proof fn lemma_cells_set_contains(s: Seq<(i64, i64)>, e: (int, int))
    ensures
        cells_set(s).contains(e) <==> exists|j: int|
            0 <= j < s.len() && (s[j].0 as int, s[j].1 as int) == e,
    decreases s.len(),
{
    if s.len() > 0 {
        lemma_cells_set_contains(s.drop_last(), e);
        if (s.last().0 as int, s.last().1 as int) == e {
            assert((s[s.len() - 1].0 as int, s[s.len() - 1].1 as int) == e);
        } else if cells_set(s).contains(e) {
            let j = choose|j: int|
                0 <= j < s.drop_last().len() && (s.drop_last()[j].0 as int,
                s.drop_last()[j].1 as int) == e;
            assert((s[j].0 as int, s[j].1 as int) == e);
        } else {
            if exists|j: int| 0 <= j < s.len() && (s[j].0 as int, s[j].1 as int) == e {
                let j = choose|j: int| 0 <= j < s.len() && (s[j].0 as int, s[j].1 as int) == e;
                assert(j < s.len() - 1 ==> s.drop_last()[j] == s[j]);
            }
        }
    }
}

/// A set of occupied grid cells.  Its view is the set of cell
/// coordinates; every stored cell is a multiple of `CELL` on both axes.
pub struct ObstacleField {
    cells: Vec<(i64, i64)>,
}

impl View for ObstacleField {
    type V = Set<(int, int)>;

    closed spec fn view(&self) -> Set<(int, int)> {
        cells_set(self.cells@)
    }
}

impl ObstacleField {
    /// Every cell in the field is snapped: both coordinates are
    /// multiples of the cell size.
    pub open spec fn wf(self) -> bool {
        forall|e: (int, int)| self@.contains(e) ==> #[trigger] (e.0 % (CELL as int)) == 0
            && e.1 % (CELL as int) == 0
    }

    /// An empty field.
    pub fn new() -> (r: ObstacleField)
        ensures
            r@ == Set::<(int, int)>::empty(),
            r.wf(),
    {
        let r = ObstacleField { cells: Vec::new() };
        proof {
            assert(r@ =~= Set::<(int, int)>::empty());
        }
        r
    }

    /// Whether the cell `(cx, cy)` is occupied.
    pub fn contains(&self, cx: i64, cy: i64) -> (r: bool)
        ensures
            r == self@.contains((cx as int, cy as int)),
    {
        let n: usize = self.cells.len();
        let mut i: usize = 0;
        let mut found: bool = false;
        while i < n
            invariant
                i <= n,
                n == self.cells@.len(),
                found == exists|j: int|
                    0 <= j < i && (self.cells@[j].0 as int, self.cells@[j].1 as int) == (
                cx as int,
                cy as int,
                ),
            decreases n - i,
        {
            let c: (i64, i64) = self.cells[i];
            if c.0 == cx && c.1 == cy {
                proof {
                    assert((self.cells@[i as int].0 as int, self.cells@[i as int].1 as int) == (
                    cx as int,
                    cy as int,
                    ));
                }
                found = true;
            }
            i += 1;
        }
        proof {
            lemma_cells_set_contains(self.cells@, (cx as int, cy as int));
        }
        found
    }

    /// Marks the cell containing the model-unit position `(x, y)` as
    /// occupied, snapping it to the grid first.
    pub fn insert(&mut self, x: i64, y: i64)
        requires
            -POS_LIMIT <= x <= POS_LIMIT,
            -POS_LIMIT <= y <= POS_LIMIT,
            old(self).wf(),
        ensures
            final(self)@ == old(self)@.insert((snap_spec(x as int), snap_spec(y as int))),
            final(self).wf(),
    {
        let cx: i64 = snap_coord(x);
        let cy: i64 = snap_coord(y);
        if !self.contains(cx, cy) {
            self.cells.push((cx, cy));
            proof {
                assert(self.cells@.drop_last() =~= old(self).cells@);
                assert(self@ =~= old(self)@.insert((snap_spec(x as int), snap_spec(y as int))));
            }
        } else {
            proof {
                assert(self@ =~= old(self)@.insert((snap_spec(x as int), snap_spec(y as int))));
            }
        }
    }
}

} // verus!
