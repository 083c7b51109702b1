//! The distances between the agents of a flock, one per unordered pair.

use vstd::prelude::*;
use crate::scalar::Scalar;

verus! {

/// The rows of a table as sequences.
pub open spec fn grid_of(rows: Vec<Vec<Scalar>>) -> Seq<Seq<Scalar>> {
    rows@.map_values(|row: Vec<Scalar>| row@)
}

/// Row `i` of a triangular grid over `n` agents holds the distances from
/// agent `i` to the agents `i + 1, ..., n - 1`, in that order; the grid has
/// `n` rows and the last one is empty.
pub open spec fn triangular(grid: Seq<Seq<Scalar>>) -> bool {
    forall|i: int| 0 <= i < grid.len() ==> (#[trigger] grid[i]).len() == grid.len() - 1 - i
}

/// The measured distance of every unordered pair of agents, for one tick.
///
/// The distances are measurements handed in by the caller; the table only
/// guarantees that there is exactly one entry per unordered pair.
pub struct DistanceTable {
    rows: Vec<Vec<Scalar>>,
}

impl View for DistanceTable {
    type V = Seq<Seq<Scalar>>;

    closed spec fn view(&self) -> Seq<Seq<Scalar>> {
        grid_of(self.rows)
    }
}

impl DistanceTable {
    #[verifier::type_invariant]
    spec fn shaped(&self) -> bool {
        triangular(grid_of(self.rows))
    }

    /// Number of agents the table covers.
    pub open spec fn population(&self) -> nat {
        self@.len()
    }

    /// The distance between two distinct agents, whichever is named first.
    pub open spec fn between(&self, a: int, b: int) -> Scalar {
        if a < b {
            self@[a][b - a - 1]
        } else {
            self@[b][a - b - 1]
        }
    }

    /// Builds the table from its rows, if they form a triangle.
    pub fn from_rows(rows: Vec<Vec<Scalar>>) -> (table: Option<DistanceTable>)
        ensures
            table.is_some() <==> triangular(grid_of(rows)),
            table matches Some(t) ==> t@ == grid_of(rows),
    {
        let n: usize = rows.len();
        let mut i: usize = 0;
        while i < n
            invariant
                n == rows.len(),
                i <= n,
                forall|k: int| 0 <= k < i ==> (#[trigger] grid_of(rows)[k]).len() == n - 1 - k,
            decreases n - i,
        {
            if rows[i].len() != n - 1 - i {
                assert(grid_of(rows)[i as int].len() != grid_of(rows).len() - 1 - i);
                return None;
            }
            i += 1;
        }
        Some(DistanceTable { rows })
    }

    /// Number of agents the table covers.
    pub fn agents(&self) -> (n: usize)
        ensures
            n == self.population(),
            triangular(self@),
    {
        proof {
            use_type_invariant(self);
        }
        self.rows.len()
    }

    /// The distance between two distinct agents, whichever is named first.
    pub fn distance(&self, a: usize, b: usize) -> (d: Scalar)
        requires
            a < self.population(),
            b < self.population(),
            a != b,
        ensures
            d == self.between(a as int, b as int),
    {
        proof {
            use_type_invariant(self);
        }
        if a < b {
            assert(grid_of(self.rows)[a as int].len() == self.rows.len() - 1 - a);
            self.rows[a][b - a - 1]
        } else {
            assert(grid_of(self.rows)[b as int].len() == self.rows.len() - 1 - b);
            self.rows[b][a - b - 1]
        }
    }
}

} // verus!
