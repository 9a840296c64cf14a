//! Module geometry: the runs of dark modules a renderer draws.
//!
//! Horizontally adjacent dark modules become a single rectangle: a run is
//! exactly the shape they would union into, and collapsing it keeps a
//! drawing proportional to the barcode's bar count rather than its module
//! count.
use vstd::prelude::*;

use crate::qr::{quiet_zone_of, vertical_quiet_zone_of, BarcodeMatrix, BarcodeSource, BarcodeSymbology};

verus! {

/// A run of horizontally adjacent dark modules in module-grid coordinates
/// (quiet zone included): grid row `row`, grid columns `start..end`.
#[derive(Debug, Clone, Copy, PartialEq, Eq, Structural)]
pub struct DarkRun {
    pub row: u32,
    pub start: u32,
    pub end: u32,
}

/// `run` covers grid cell `(column, row)`.
pub open spec fn covers(run: DarkRun, column: int, row: int) -> bool {
    run.row == row && run.start <= column < run.end
}

/// `first` comes before `second`, row-major, with a gap between them on a
/// shared row.
pub open spec fn precedes(first: DarkRun, second: DarkRun) -> bool {
    first.row < second.row || (first.row == second.row && first.end < second.start)
}

impl BarcodeSource {
    /// Whether grid cell `(column, row)` holds a dark module; quiet-zone
    /// cells never do.
    pub open spec fn spec_dark_at(&self, column: int, row: int) -> bool {
        let qx: int = quiet_zone_of(self.spec_symbology()) as int;
        let qy: int = vertical_quiet_zone_of(self.spec_symbology()) as int;
        &&& qx <= column < qx + self.spec_matrix().width
        &&& qy <= row < qy + self.spec_matrix().height
        &&& self.spec_matrix().spec_is_dark((column - qx) as nat, (row - qy) as nat)
    }

    /// `run` is a maximal run of dark cells: non-empty, dark throughout, and
    /// light (or outside the matrix) just before and just after.
    pub open spec fn spec_is_maximal_run(&self, run: DarkRun) -> bool {
        &&& run.start < run.end
        &&& forall|column: int|
            run.start <= column < run.end ==> #[trigger] self.spec_dark_at(column, run.row as int)
        &&& !self.spec_dark_at(run.start - 1, run.row as int)
        &&& !self.spec_dark_at(run.end as int, run.row as int)
    }

    /// `runs` are the maximal dark runs of this barcode, row-major, and
    /// every dark cell lies in one of them.
    pub open spec fn spec_dark_runs(&self, runs: Seq<DarkRun>) -> bool {
        &&& forall|k: int| 0 <= k < runs.len() ==> self.spec_is_maximal_run(#[trigger] runs[k])
        &&& forall|i: int, j: int|
            0 <= i < j < runs.len() ==> precedes(#[trigger] runs[i], #[trigger] runs[j])
        &&& forall|column: int, row: int|
            #[trigger] self.spec_dark_at(column, row) ==> exists|k: int|
                0 <= k < runs.len() && covers(#[trigger] runs[k], column, row)
    }
}

/// A maximal run lies inside the matrix: clear of the quiet zone on every
/// side.
pub proof fn lemma_run_clears_quiet_zone(source: BarcodeSource, run: DarkRun)
    requires
        source.spec_is_maximal_run(run),
    ensures
        quiet_zone_of(source.spec_symbology()) <= run.start,
        run.end <= source.spec_module_grid().0 - quiet_zone_of(source.spec_symbology()),
        vertical_quiet_zone_of(source.spec_symbology()) <= run.row,
        run.row < source.spec_module_grid().1 - vertical_quiet_zone_of(source.spec_symbology()),
{
    assert(source.spec_dark_at(run.start as int, run.row as int));
    assert(source.spec_dark_at(run.end - 1, run.row as int));
}

/// The runs are exactly the dark modules, placed after the quiet zone
/// (`qx` columns to the left, four for a QR code and ten for a Code128
/// symbol; `qy` rows above, four for a QR code and none for a Code128
/// symbol): a module of the matrix is dark iff a run covers it; each run is
/// a non-empty stretch of one row inside the matrix, with
/// the module just before and just after it light or outside the matrix;
/// and the runs come row by row, left to right, with a gap between runs
/// that share a row.
pub proof fn lemma_dark_runs_are_the_dark_modules(source: BarcodeSource, runs: Seq<DarkRun>)
    requires
        source.spec_dark_runs(runs),
    ensures
        ({
            let m = source.spec_matrix();
            let qr = source.spec_symbology() == BarcodeSymbology::Qr;
            let qx: int = if qr {
                4
            } else {
                10
            };
            let qy: int = if qr {
                4
            } else {
                0
            };
            &&& forall|x: nat, y: nat|
                x < m.width && y < m.height ==> (#[trigger] m.spec_is_dark(x, y) <==> exists|k: int|
                    0 <= k < runs.len() && runs[k].row == y + qy && runs[k].start <= x + qx
                        < runs[k].end)
            &&& forall|k: int|
                0 <= k < runs.len() ==> qx <= #[trigger] runs[k].start < runs[k].end <= qx + m.width
                    && qy <= runs[k].row < qy + m.height
            &&& forall|k: int|
                0 <= k < runs.len() ==> (#[trigger] runs[k].start == qx || !m.spec_is_dark(
                    (runs[k].start - 1 - qx) as nat,
                    (runs[k].row - qy) as nat,
                ))
            &&& forall|k: int|
                0 <= k < runs.len() ==> (#[trigger] runs[k].end == qx + m.width || !m.spec_is_dark(
                    (runs[k].end - qx) as nat,
                    (runs[k].row - qy) as nat,
                ))
            &&& forall|i: int, j: int|
                0 <= i < j < runs.len() ==> (#[trigger] runs[i]).row < (#[trigger] runs[j]).row || (
                runs[i].row == runs[j].row && runs[i].end < runs[j].start)
        }),
{
    let m = source.spec_matrix();
    let qx: int = quiet_zone_of(source.spec_symbology()) as int;
    let qy: int = vertical_quiet_zone_of(source.spec_symbology()) as int;
    assert forall|k: int| 0 <= k < runs.len() implies qx <= #[trigger] runs[k].start < runs[k].end
        <= qx + m.width && qy <= runs[k].row < qy + m.height by {
        lemma_run_clears_quiet_zone(source, runs[k]);
    }
    assert forall|x: nat, y: nat| x < m.width && y < m.height implies (#[trigger] m.spec_is_dark(
        x,
        y,
    ) <==> exists|k: int|
        0 <= k < runs.len() && runs[k].row == y + qy && runs[k].start <= x + qx < runs[k].end) by {
        if m.spec_is_dark(x, y) {
            assert(source.spec_dark_at(x + qx, y + qy));
            let k = choose|k: int| 0 <= k < runs.len() && covers(runs[k], x + qx, y + qy);
            assert(runs[k].row == y + qy && runs[k].start <= x + qx < runs[k].end);
        }
        if exists|k: int|
            0 <= k < runs.len() && runs[k].row == y + qy && runs[k].start <= x + qx < runs[k].end {
            let k = choose|k: int|
                0 <= k < runs.len() && runs[k].row == y + qy && runs[k].start <= x + qx
                    < runs[k].end;
            assert(source.spec_is_maximal_run(runs[k]));
            assert(source.spec_dark_at(x + qx, runs[k].row as int));
        }
    }
    assert forall|k: int| 0 <= k < runs.len() implies (#[trigger] runs[k].start == qx
        || !m.spec_is_dark((runs[k].start - 1 - qx) as nat, (runs[k].row - qy) as nat)) by {
        assert(source.spec_is_maximal_run(runs[k]));
        lemma_run_clears_quiet_zone(source, runs[k]);
    }
    assert forall|k: int| 0 <= k < runs.len() implies (#[trigger] runs[k].end == qx + m.width
        || !m.spec_is_dark((runs[k].end - qx) as nat, (runs[k].row - qy) as nat)) by {
        assert(source.spec_is_maximal_run(runs[k]));
        lemma_run_clears_quiet_zone(source, runs[k]);
    }
    assert forall|i: int, j: int| 0 <= i < j < runs.len() implies (#[trigger] runs[i]).row < (
    #[trigger] runs[j]).row || (runs[i].row == runs[j].row && runs[i].end < runs[j].start) by {
        assert(precedes(runs[i], runs[j]));
    }
}

proof fn lemma_module_index(matrix: BarcodeMatrix, x: nat, y: nat)
    requires
        matrix.wf(),
        x < matrix.width,
        y < matrix.height,
    ensures
        y * matrix.width + x <= u32::MAX,
        (y * matrix.width + x) / 32 < matrix.packed_data@.len(),
{
    let w: nat = matrix.width as nat;
    let h: nat = matrix.height as nat;
    assert(y * w + x < w * h) by (nonlinear_arith)
        requires
            x < w,
            y < h,
    ;
}

impl BarcodeSource {
    /// The maximal runs of dark modules, row by row, left to right, in
    /// module-grid coordinates: what a renderer fills, one rectangle each.
    pub fn dark_runs(&self) -> (runs: Vec<DarkRun>)
        ensures
            self.spec_dark_runs(runs@),
            forall|k: int|
                0 <= k < runs@.len() ==> quiet_zone_of(self.spec_symbology()) <= #[trigger] runs@[k].start
                    && runs@[k].end <= self.spec_module_grid().0 - quiet_zone_of(
                    self.spec_symbology(),
                ) && vertical_quiet_zone_of(self.spec_symbology()) <= runs@[k].row && runs@[k].row
                    < self.spec_module_grid().1 - vertical_quiet_zone_of(self.spec_symbology()),
            self.spec_symbology() == BarcodeSymbology::Code128 ==> forall|k: int|
                0 <= k < runs@.len() ==> #[trigger] runs@[k].row == 0,
    {
        let matrix = self.matrix();
        let quiet_x: u32 = self.quiet_zone();
        let quiet_y: u32 = self.vertical_quiet_zone();
        // The grid fits in `u32`, which bounds every grid coordinate below.
        let grid: (u32, u32) = self.module_grid();
        let width: u32 = matrix.width;
        let height: u32 = matrix.height;
        let mut runs: Vec<DarkRun> = Vec::new();
        let mut row: u32 = 0;
        while row < height
            invariant
                *matrix == self.spec_matrix(),
                matrix.wf(),
                width == matrix.width,
                height == matrix.height,
                quiet_x == quiet_zone_of(self.spec_symbology()),
                quiet_y == vertical_quiet_zone_of(self.spec_symbology()),
                width + 2 * quiet_x <= u32::MAX,
                height + 2 * quiet_y <= u32::MAX,
                row <= height,
                forall|k: int| 0 <= k < runs@.len() ==> self.spec_is_maximal_run(#[trigger] runs@[k]),
                forall|i: int, j: int|
                    0 <= i < j < runs@.len() ==> precedes(#[trigger] runs@[i], #[trigger] runs@[j]),
                forall|k: int| 0 <= k < runs@.len() ==> #[trigger] runs@[k].row < row + quiet_y,
                forall|column: int, r: int|
                    #[trigger] self.spec_dark_at(column, r) && r < row + quiet_y ==> exists|k: int|
                        0 <= k < runs@.len() && covers(#[trigger] runs@[k], column, r),
            decreases height - row,
        {
            let grid_row: u32 = row + quiet_y;
            let mut run_start: Option<u32> = None;
            let mut column: u32 = 0;
            // One column past the last closes a run that reaches the right edge.
            while column <= width
                invariant
                    *matrix == self.spec_matrix(),
                    matrix.wf(),
                    width == matrix.width,
                    height == matrix.height,
                    quiet_x == quiet_zone_of(self.spec_symbology()),
                    quiet_y == vertical_quiet_zone_of(self.spec_symbology()),
                    width + 2 * quiet_x <= u32::MAX,
                    height + 2 * quiet_y <= u32::MAX,
                    row < height,
                    grid_row == row + quiet_y,
                    column <= width + 1,
                    column > width ==> run_start is None,
                    forall|k: int|
                        0 <= k < runs@.len() ==> self.spec_is_maximal_run(#[trigger] runs@[k]),
                    forall|i: int, j: int|
                        0 <= i < j < runs@.len() ==> precedes(
                            #[trigger] runs@[i],
                            #[trigger] runs@[j],
                        ),
                    forall|k: int|
                        0 <= k < runs@.len() ==> #[trigger] runs@[k].row < grid_row || (
                        runs@[k].row == grid_row && runs@[k].end < column + quiet_x && (
                        run_start matches Some(s) ==> runs@[k].end < s + quiet_x)),
                    match run_start {
                        Some(s) => {
                            &&& s < column
                            &&& forall|c: int|
                                s + quiet_x <= c < column + quiet_x ==> #[trigger] self.spec_dark_at(
                                    c,
                                    grid_row as int,
                                )
                            &&& !self.spec_dark_at(s + quiet_x - 1, grid_row as int)
                        },
                        None => column == 0 || !self.spec_dark_at(
                            column + quiet_x - 1,
                            grid_row as int,
                        ),
                    },
                    forall|c: int, r: int|
                        #[trigger] self.spec_dark_at(c, r) && (r < grid_row || (r == grid_row && c
                            < column + quiet_x)) ==> (exists|k: int|
                            0 <= k < runs@.len() && covers(#[trigger] runs@[k], c, r)) || (
                        run_start matches Some(s) && r == grid_row && s + quiet_x <= c),
                decreases width + 1 - column,
            {
                let dark = if column < width {
                    proof {
                        lemma_module_index(*matrix, column as nat, row as nat);
                    }
                    matrix.is_dark(column, row)
                } else {
                    false
                };
                assert(dark == self.spec_dark_at(column + quiet_x, grid_row as int));
                match run_start {
                    None => {
                        if dark {
                            run_start = Some(column);
                        }
                    },
                    Some(start) => {
                        if !dark {
                            let run = DarkRun {
                                row: grid_row,
                                start: start + quiet_x,
                                end: column + quiet_x,
                            };
                            let ghost before = runs@;
                            runs.push(run);
                            assert(self.spec_is_maximal_run(run));
                            assert forall|c: int, r: int|
                                #[trigger] self.spec_dark_at(c, r) && (r < grid_row || (r == grid_row
                                    && c < column + 1 + quiet_x)) implies exists|k: int|
                                0 <= k < runs@.len() && covers(#[trigger] runs@[k], c, r) by {
                                if r == grid_row && start + quiet_x <= c {
                                    assert(covers(runs@[before.len() as int], c, r));
                                } else {
                                    let k = choose|k: int|
                                        0 <= k < before.len() && covers(before[k], c, r);
                                    assert(covers(runs@[k], c, r));
                                }
                            }
                            run_start = None;
                        }
                    },
                }
                column = column + 1;
            }
            assert forall|c: int, r: int|
                #[trigger] self.spec_dark_at(c, r) && r < row + 1 + quiet_y implies exists|k: int|
                0 <= k < runs@.len() && covers(#[trigger] runs@[k], c, r) by {
                if r == grid_row {
                    assert(c < column + quiet_x);
                }
            }
            row = row + 1;
        }
        proof {
            assert forall|column: int, r: int| #[trigger]
                self.spec_dark_at(column, r) implies exists|k: int|
                0 <= k < runs@.len() && covers(#[trigger] runs@[k], column, r) by {
                assert(r < row + quiet_y);
            }
            assert forall|k: int| 0 <= k < runs@.len() implies quiet_zone_of(self.spec_symbology())
                <= #[trigger] runs@[k].start && runs@[k].end <= self.spec_module_grid().0
                - quiet_zone_of(self.spec_symbology()) && vertical_quiet_zone_of(
                self.spec_symbology(),
            ) <= runs@[k].row && runs@[k].row < self.spec_module_grid().1 - vertical_quiet_zone_of(
                self.spec_symbology(),
            ) by {
                lemma_run_clears_quiet_zone(*self, runs@[k]);
            }
        }
        runs
    }
}

} // verus!
