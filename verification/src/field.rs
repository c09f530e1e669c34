use vstd::prelude::*;
use vstd::arithmetic::div_mod::{
    lemma_div_is_ordered, lemma_div_pos_is_pos, lemma_fundamental_div_mod,
    lemma_mod_division_less_than_divisor,
};

use crate::vec2::Vec2;
use crate::{COLS, FIELD_LEN, FIELD_MAG, FIELD_MAG_SQ_MAX, FIELD_MAG_SQ_MIN, ROWS};

verus! {

/// What every cell of a well-formed flow field satisfies: both components
/// fit the field magnitude, and the squared magnitude sits within rounding
/// slack of the exact squared field magnitude — the vector is a direction
/// scaled to (nearly exactly) `FIELD_MAG`.
pub open spec fn cell_ok(c: Vec2) -> bool {
    &&& -FIELD_MAG <= c.x <= FIELD_MAG
    &&& -FIELD_MAG <= c.y <= FIELD_MAG
    &&& FIELD_MAG_SQ_MIN <= c.mag_sq() <= FIELD_MAG_SQ_MAX
}

/// The flow field: one direction vector per grid cell, stored flat with the
/// cell at grid position `(x, y)` at index `x + y * ROWS`.
pub struct FlowField {
    data: Vec<Vec2>,
}

impl FlowField {
    /// The cells of the field, in flat index order.
    pub closed spec fn cells(self) -> Seq<Vec2> {
        self.data@
    }

    /// Well-formedness: the field always holds exactly `ROWS * COLS` cells,
    /// each a vector of (nearly exactly) the field magnitude.
    pub open spec fn wf(self) -> bool {
        &&& self.cells().len() == FIELD_LEN
        &&& forall|i: int| 0 <= i < FIELD_LEN ==> cell_ok(#[trigger] self.cells()[i])
    }

    /// Build a field from a flat vector of cells. Succeeds exactly when the
    /// vector has one entry per grid cell and every entry has the field
    /// magnitude; otherwise nothing is built.
    pub fn from_cells(cells: Vec<Vec2>) -> (r: Option<FlowField>)
        ensures
            match r {
                Some(f) => f.wf() && f.cells() == cells@ && cells@.len() == FIELD_LEN && forall|
                    i: int,
                |
                    0 <= i < FIELD_LEN ==> cell_ok(#[trigger] cells@[i]),
                None => cells@.len() != FIELD_LEN || exists|i: int|
                    0 <= i < FIELD_LEN && !cell_ok(#[trigger] cells@[i]),
            },
    {
        if cells.len() != FIELD_LEN {
            return None;
        }
        let mut i: usize = 0;
        while i < FIELD_LEN
            invariant
                cells@.len() == FIELD_LEN,
                0 <= i <= FIELD_LEN,
                forall|k: int| 0 <= k < i ==> cell_ok(#[trigger] cells@[k]),
            decreases FIELD_LEN - i,
        {
            let c = cells[i];
            if c.x < -FIELD_MAG || c.x > FIELD_MAG || c.y < -FIELD_MAG || c.y > FIELD_MAG {
                return None;
            }
            proof {
                assert(0 <= c.x * c.x <= 25_000_000 && 0 <= c.y * c.y <= 25_000_000)
                    by (nonlinear_arith)
                    requires
                        -5000 <= c.x <= 5000,
                        -5000 <= c.y <= 5000,
                ;
            }
            let m2 = c.x * c.x + c.y * c.y;
            if m2 < FIELD_MAG_SQ_MIN || m2 > FIELD_MAG_SQ_MAX {
                return None;
            }
            i += 1;
        }
        Some(FlowField { data: cells })
    }

    /// The number of cells.
    pub fn len(&self) -> (n: usize)
        ensures
            n == self.cells().len(),
    {
        self.data.len()
    }

    /// Read the cell at a flat index.
    pub fn cell(&self, i: usize) -> (c: Vec2)
        requires
            i < self.cells().len(),
        ensures
            c == self.cells()[i as int],
    {
        self.data[i]
    }
}

/// The flat index where the cell of grid position `(x, y)` is stored: the
/// stride is `ROWS`.
pub open spec fn grid_index(x: int, y: int) -> int {
    x + y * (ROWS as int)
}

/// Where in sampling order — row by row, `COLS` samples per row — the
/// sample for grid position `(x, y)` was taken.
pub open spec fn sample_index(x: int, y: int) -> int {
    y * (COLS as int) + x
}

/// The field holds exactly the given samples: the sample taken at grid
/// position `(x, y)` sits at the flat index of that cell.
pub open spec fn generated_from(f: FlowField, samples: Seq<Vec2>) -> bool {
    &&& f.cells().len() == FIELD_LEN
    &&& forall|x: int, y: int|
        0 <= x < COLS && 0 <= y < ROWS ==> f.cells()[#[trigger] grid_index(x, y)]
            == samples[sample_index(x, y)]
}

/// Fully overwrite every cell of the field with the given samples, one per
/// grid cell in row-by-row sampling order. The caller guarantees that every
/// sample has the field magnitude, so the field invariant is maintained.
pub fn generate(field: &mut FlowField, samples: &Vec<Vec2>)
    requires
        old(field).wf(),
        samples@.len() == FIELD_LEN,
        forall|k: int| 0 <= k < FIELD_LEN ==> cell_ok(#[trigger] samples@[k]),
    ensures
        final(field).wf(),
        generated_from(*final(field), samples@),
{
    let mut y: usize = 0;
    while y < ROWS
        invariant
            field.wf(),
            samples@.len() == FIELD_LEN,
            forall|k: int| 0 <= k < FIELD_LEN ==> cell_ok(#[trigger] samples@[k]),
            0 <= y <= ROWS,
            forall|k: int| 0 <= k < y * (COLS as int) ==> field.cells()[k] == samples@[k],
        decreases ROWS - y,
    {
        let mut x: usize = 0;
        while x < COLS
            invariant
                field.wf(),
                samples@.len() == FIELD_LEN,
                forall|k: int| 0 <= k < FIELD_LEN ==> cell_ok(#[trigger] samples@[k]),
                0 <= y < ROWS,
                0 <= x <= COLS,
                forall|k: int|
                    0 <= k < y * (COLS as int) + x ==> field.cells()[k] == samples@[k],
            decreases COLS - x,
        {
            let idx = x + y * ROWS;
            let sidx = y * COLS + x;
            assert(idx == sidx && idx < FIELD_LEN);
            field.data[idx] = samples[sidx];
            x += 1;
        }
        y += 1;
    }
    proof {
        assert forall|gx: int, gy: int| 0 <= gx < COLS && 0 <= gy < ROWS implies field.cells()[
            #[trigger] grid_index(gx, gy)] == samples@[sample_index(gx, gy)] by {
            assert(gx + gy * (ROWS as int) < (ROWS as int) * (COLS as int)) by (nonlinear_arith)
                requires
                    0 <= gx < COLS,
                    0 <= gy < ROWS,
                    ROWS == 50,
                    COLS == 50,
            ;
            assert(grid_index(gx, gy) == sample_index(gx, gy));
        }
    }
}

/// Regeneration is deterministic in its inputs: two fields generated from
/// the same samples hold identical cells.
pub proof fn lemma_generate_deterministic(f1: FlowField, f2: FlowField, samples: Seq<Vec2>)
    requires
        generated_from(f1, samples),
        generated_from(f2, samples),
    ensures
        f1.cells() == f2.cells(),
{
    assert forall|k: int| 0 <= k < FIELD_LEN implies f1.cells()[k] == f2.cells()[k] by {
        let x = k % (ROWS as int);
        let y = k / (ROWS as int);
        lemma_fundamental_div_mod(k, ROWS as int);
        lemma_mod_division_less_than_divisor(k, ROWS as int);
        lemma_div_pos_is_pos(k, ROWS as int);
        lemma_div_is_ordered(k, FIELD_LEN - 1, ROWS as int);
        assert(k == grid_index(x, y)) by (nonlinear_arith)
            requires
                k == (ROWS as int) * y + x,
                ROWS == 50,
        ;
        assert(f1.cells()[grid_index(x, y)] == samples[sample_index(x, y)]);
        assert(f2.cells()[grid_index(x, y)] == samples[sample_index(x, y)]);
    }
    assert(f1.cells() =~= f2.cells());
}

} // verus!
