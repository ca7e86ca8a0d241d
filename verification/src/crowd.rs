//! The crowd layout: many animated instances of the model stand on a grid
//! centred on the origin, and progress is reported while their animations
//! start.

use vstd::prelude::*;

verus! {

/// Number of animated instances in the crowd.
pub const INSTANCE_COUNT: usize = 1000;

/// Number of grid columns.
pub const GRID_COLUMNS: usize = 40;

/// Number of grid rows needed for `count` instances in `columns` columns.
pub open spec fn spec_grid_rows(count: int, columns: int) -> int {
    (count + columns - 1) / columns
}

/// Number of grid rows needed for `count` instances in `columns` columns
/// (rounded up).
pub fn grid_rows(count: usize, columns: usize) -> (rows: usize)
    requires
        columns > 0,
    ensures
        rows == spec_grid_rows(count as int, columns as int),
{
    proof {
        let q = count as int / columns as int;
        let r = count as int % columns as int;
        vstd::arithmetic::div_mod::lemma_fundamental_div_mod(count as int, columns as int);
        vstd::arithmetic::div_mod::lemma_mod_bound(count as int, columns as int);
        assert(columns * q + r == count);
        if r == 0 {
            vstd::arithmetic::div_mod::lemma_fundamental_div_mod_converse(
                count + columns - 1,
                columns as int,
                q,
                columns - 1,
            );
        } else {
            assert((q + 1) * columns + (r - 1) == count + columns - 1) by (nonlinear_arith)
                requires
                    columns * q + r == count,
            ;
            vstd::arithmetic::div_mod::lemma_fundamental_div_mod_converse(
                count + columns - 1,
                columns as int,
                q + 1,
                r - 1,
            );
            assert(columns >= 2);
            assert(q < usize::MAX) by (nonlinear_arith)
                requires
                    columns * q + r == count,
                    columns >= 2,
                    r >= 0,
                    count <= usize::MAX,
            ;
        }
    }
    count / columns + if count % columns == 0 {
        0
    } else {
        1
    }
}

/// Column and row of instance `index`, filling the grid row by row.
pub fn grid_cell(index: usize, columns: usize) -> (cell: (usize, usize))
    requires
        columns > 0,
    ensures
        cell.0 == index % columns,
        cell.1 == index / columns,
        cell.0 < columns,
        cell.1 * columns + cell.0 == index,
{
    proof {
        vstd::arithmetic::div_mod::lemma_fundamental_div_mod(index as int, columns as int);
        vstd::arithmetic::div_mod::lemma_mod_bound(index as int, columns as int);
        assert((index / columns) * columns == columns * (index / columns)) by (nonlinear_arith);
    }
    (index % columns, index / columns)
}

/// Twice the offset of cell `cell` from the centre of a line of `cells` cells,
/// in cell spacings: the cell's position is this many half spacings from the
/// centre.
pub open spec fn spec_centered_half_offset(cell: int, cells: int) -> int {
    2 * cell - (cells - 1)
}

/// Twice the offset of cell `cell` from the centre of a line of `cells` cells.
pub fn centered_half_offset(cell: usize, cells: usize) -> (offset: i64)
    requires
        cell < cells <= 0x4000_0000_0000_0000,
    ensures
        offset == spec_centered_half_offset(cell as int, cells as int),
{
    2 * (cell as i64) - (cells as i64 - 1)
}

/// The position of instance `index` of `count`, as twice its offset from the
/// grid's centre in cell spacings along the columns and along the rows.
pub fn instance_half_offsets(index: usize, count: usize, columns: usize) -> (offsets: (i64, i64))
    requires
        index < count <= 0x4000_0000_0000_0000,
        0 < columns <= 0x4000_0000_0000_0000,
    ensures
        offsets.0 == spec_centered_half_offset((index % columns) as int, columns as int),
        offsets.1 == spec_centered_half_offset(
            (index / columns) as int,
            spec_grid_rows(count as int, columns as int),
        ),
{
    proof {
        lemma_cells_in_grid(index as int, count as int, columns as int);
    }
    let (column, row) = grid_cell(index, columns);
    let rows = grid_rows(count, columns);
    (centered_half_offset(column, columns), centered_half_offset(row, rows))
}

/// Whether the start of the `started`-th animation is reported: every
/// hundredth, and the last one.
pub open spec fn spec_reports_progress(started: int, total: int) -> bool {
    started % 100 == 0 || started == total
}

/// Counts one more started animation and says whether to report progress.
pub fn note_animation_started(started: &mut usize, total: usize) -> (report: bool)
    requires
        *old(started) < usize::MAX,
    ensures
        *final(started) == *old(started) + 1,
        report == spec_reports_progress(*final(started) as int, total as int),
{
    *started = *started + 1;
    *started % 100 == 0 || *started == total
}

proof fn lemma_cells_in_grid(index: int, count: int, columns: int)
    requires
        0 <= index < count,
        columns > 0,
    ensures
        0 <= index % columns < columns,
        0 <= index / columns < spec_grid_rows(count, columns),
        spec_grid_rows(count, columns) <= count,
{
    vstd::arithmetic::div_mod::lemma_fundamental_div_mod(index, columns);
    vstd::arithmetic::div_mod::lemma_mod_bound(index, columns);
    vstd::arithmetic::div_mod::lemma_div_pos_is_pos(index, columns);
    vstd::arithmetic::div_mod::lemma_fundamental_div_mod(count + columns - 1, columns);
    vstd::arithmetic::div_mod::lemma_mod_bound(count + columns - 1, columns);
    assert(index / columns < spec_grid_rows(count, columns)) by (nonlinear_arith)
        requires
            index == columns * (index / columns) + index % columns,
            0 <= index % columns,
            count + columns - 1 == columns * ((count + columns - 1) / columns) + (count + columns
                - 1) % columns,
            (count + columns - 1) % columns < columns,
            index < count,
            columns > 0,
            spec_grid_rows(count, columns) == (count + columns - 1) / columns,
    ;
    assert(spec_grid_rows(count, columns) <= count) by (nonlinear_arith)
        requires
            count + columns - 1 == columns * ((count + columns - 1) / columns) + (count + columns
                - 1) % columns,
            0 <= (count + columns - 1) % columns,
            count >= 1,
            columns > 0,
            spec_grid_rows(count, columns) == (count + columns - 1) / columns,
    ;
}

/// The grid holds the whole crowd and gives every instance its own cell: for
/// instances of a crowd of `count`, cells lie inside the grid, and two
/// different instances never share a cell.
pub proof fn lemma_grid_cells_distinct(i: int, j: int, count: int, columns: int)
    requires
        0 <= i < count,
        0 <= j < count,
        i != j,
        columns > 0,
    ensures
        0 <= i % columns < columns,
        0 <= i / columns < spec_grid_rows(count, columns),
        (i % columns, i / columns) != (j % columns, j / columns),
{
    lemma_cells_in_grid(i, count, columns);
    vstd::arithmetic::div_mod::lemma_fundamental_div_mod(i, columns);
    vstd::arithmetic::div_mod::lemma_fundamental_div_mod(j, columns);
}

/// The counts at which progress is reported over `calls` successive
/// [`note_animation_started`] calls that start from zero.
pub open spec fn spec_reported_counts(total: int, calls: nat) -> Seq<int>
    decreases calls,
{
    if calls == 0 {
        seq![]
    } else {
        let earlier = spec_reported_counts(total, (calls - 1) as nat);
        if spec_reports_progress(calls as int, total) {
            earlier.push(calls as int)
        } else {
            earlier
        }
    }
}

proof fn lemma_crowd_reports_upto(calls: nat)
    requires
        calls <= INSTANCE_COUNT,
    ensures
        spec_reported_counts(INSTANCE_COUNT as int, calls) == Seq::new(
            (calls / 100) as nat,
            |m: int| 100 * (m + 1),
        ),
    decreases calls,
{
    if calls > 0 {
        lemma_crowd_reports_upto((calls - 1) as nat);
        let c = calls as int;
        let q = (c - 1) / 100;
        let r = (c - 1) % 100;
        vstd::arithmetic::div_mod::lemma_fundamental_div_mod(c - 1, 100);
        vstd::arithmetic::div_mod::lemma_mod_bound(c - 1, 100);
        if r == 99 {
            vstd::arithmetic::div_mod::lemma_fundamental_div_mod_converse(c, 100, q + 1, 0);
            assert(spec_reports_progress(c, INSTANCE_COUNT as int));
            assert(spec_reported_counts(INSTANCE_COUNT as int, calls) =~= Seq::new(
                (calls / 100) as nat,
                |m: int| 100 * (m + 1),
            ));
        } else {
            vstd::arithmetic::div_mod::lemma_fundamental_div_mod_converse(c, 100, q, r + 1);
            assert(c != INSTANCE_COUNT) by {
                vstd::arithmetic::div_mod::lemma_fundamental_div_mod_converse(1000, 100, 10, 0);
            }
            assert(!spec_reports_progress(c, INSTANCE_COUNT as int));
            assert(spec_reported_counts(INSTANCE_COUNT as int, calls) =~= Seq::new(
                (calls / 100) as nat,
                |m: int| 100 * (m + 1),
            ));
        }
    }
}

/// Starting the animations of the whole crowd, one [`note_animation_started`]
/// call per instance from zero, reports progress exactly at 100, 200, ...,
/// 1000, the last report being the last instance.
pub proof fn lemma_crowd_progress_reports()
    ensures
        spec_reported_counts(INSTANCE_COUNT as int, INSTANCE_COUNT as nat) == Seq::new(
            10,
            |m: int| 100 * (m + 1),
        ),
{
    lemma_crowd_reports_upto(INSTANCE_COUNT as nat);
}

/// Neighbouring cells of a line sit one spacing (two half spacings) apart,
/// from the first cell at `-(cells - 1)` half spacings to the last at
/// `cells - 1`: the cells are evenly spread and centred on the origin.
pub proof fn lemma_offsets_evenly_spaced(cell: int, cells: int)
    requires
        0 <= cell,
        cell + 1 < cells,
    ensures
        spec_centered_half_offset(cell + 1, cells) - spec_centered_half_offset(cell, cells) == 2,
        spec_centered_half_offset(0, cells) == -(cells - 1),
        spec_centered_half_offset(cells - 1, cells) == cells - 1,
{
}

/// The grid has just enough rows for the crowd: the rows hold every
/// instance, and one row fewer would not.
pub proof fn lemma_grid_rows_is_ceiling(count: int, columns: int)
    requires
        0 <= count,
        0 < columns,
    ensures
        spec_grid_rows(count, columns) * columns >= count,
        (spec_grid_rows(count, columns) - 1) * columns < count || count == 0,
        count == 0 ==> spec_grid_rows(count, columns) == 0,
{
    let rows = spec_grid_rows(count, columns);
    vstd::arithmetic::div_mod::lemma_fundamental_div_mod(count + columns - 1, columns);
    vstd::arithmetic::div_mod::lemma_mod_bound(count + columns - 1, columns);
    assert(rows * columns >= count) by (nonlinear_arith)
        requires
            count + columns - 1 == columns * rows + (count + columns - 1) % columns,
            (count + columns - 1) % columns < columns,
    ;
    assert((rows - 1) * columns < count || count == 0) by (nonlinear_arith)
        requires
            count + columns - 1 == columns * rows + (count + columns - 1) % columns,
            0 <= (count + columns - 1) % columns,
            columns > 0,
    ;
    if count == 0 {
        vstd::arithmetic::div_mod::lemma_small_mod((columns - 1) as nat, columns as nat);
        vstd::arithmetic::div_mod::lemma_fundamental_div_mod_converse(columns - 1, columns, 0, columns - 1);
    }
}

/// Cells mirrored about the centre of a line sit at opposite offsets, so the
/// grid is centred on the origin.
pub proof fn lemma_offsets_symmetric(cell: int, cells: int)
    requires
        0 <= cell < cells,
    ensures
        spec_centered_half_offset(cell, cells) == -spec_centered_half_offset(cells - 1 - cell, cells),
{
}

} // verus!
