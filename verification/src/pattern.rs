//! The beat grid: one row of cells per track, one cell per beat.

use vstd::prelude::*;

verus! {

/// The grid that a vector of rows stands for: row by row, cell by cell.
pub open spec fn grid(rows: Seq<Vec<bool>>) -> Seq<Seq<bool>> {
    Seq::new(rows.len(), |i: int| rows[i]@)
}

/// Every row of the grid has `width` cells.
pub open spec fn rectangular(cells: Seq<Seq<bool>>, width: int) -> bool {
    forall|i: int| 0 <= i < cells.len() ==> (#[trigger] cells[i]).len() == width
}

/// A row of `length` inactive cells.
pub open spec fn blank(length: nat) -> Seq<bool> {
    Seq::new(length, |i: int| false)
}

/// `row` cut or padded with inactive cells to `length` cells.
pub open spec fn resized(row: Seq<bool>, length: nat) -> Seq<bool> {
    Seq::new(length, |i: int| if i < row.len() { row[i] } else { false })
}

/// `cells` with every row cut or padded to `length` cells.
pub open spec fn resized_grid(cells: Seq<Seq<bool>>, length: nat) -> Seq<Seq<bool>> {
    Seq::new(cells.len(), |i: int| resized(cells[i], length))
}

/// `cells` with the cell in row `track`, column `beat` set to `active`.
pub open spec fn with_cell(cells: Seq<Seq<bool>>, track: int, beat: int, active: bool) -> Seq<Seq<bool>>
    recommends
        0 <= track < cells.len(),
        0 <= beat < cells[track].len(),
{
    cells.update(track, cells[track].update(beat, active))
}

/// Whether every row has `width` cells.
pub fn is_rectangular(rows: &Vec<Vec<bool>>, width: usize) -> (yes: bool)
    ensures
        yes == rectangular(grid(rows@), width as int),
{
    let mut i: usize = 0;
    while i < rows.len()
        invariant
            i <= rows.len(),
            forall|j: int| 0 <= j < i ==> (#[trigger] grid(rows@)[j]).len() == width,
        decreases rows.len() - i,
    {
        if rows[i].len() != width {
            assert(grid(rows@)[i as int].len() != width);
            return false;
        }
        i += 1;
    }
    true
}

/// A row of `length` inactive cells.
pub fn blank_row(length: usize) -> (row: Vec<bool>)
    ensures
        row@ == blank(length as nat),
{
    let mut row: Vec<bool> = Vec::new();
    while row.len() < length
        invariant
            row.len() <= length,
            forall|i: int| 0 <= i < row.len() ==> !row[i],
        decreases length - row.len(),
    {
        row.push(false);
    }
    proof {
        assert(row@ =~= blank(length as nat));
    }
    row
}

/// Cuts or pads the row to `length` cells.
pub fn resize_row(row: &mut Vec<bool>, length: usize)
    ensures
        final(row)@ == resized(old(row)@, length as nat),
{
    row.truncate(length);
    while row.len() < length
        invariant
            row.len() <= length,
            old(row).len() <= row.len() || row.len() == length,
            forall|i: int| 0 <= i < row.len() ==> row[i] == resized(old(row)@, length as nat)[i],
        decreases length - row.len(),
    {
        row.push(false);
    }
    proof {
        assert(row@ =~= resized(old(row)@, length as nat));
    }
}

/// A copy of one row.
pub fn copy_row(row: &Vec<bool>) -> (copy: Vec<bool>)
    ensures
        copy@ == row@,
{
    let mut copy: Vec<bool> = Vec::new();
    let mut i: usize = 0;
    while i < row.len()
        invariant
            i <= row.len(),
            copy.len() == i,
            forall|j: int| 0 <= j < i ==> copy[j] == row[j],
        decreases row.len() - i,
    {
        copy.push(row[i]);
        i += 1;
    }
    proof {
        assert(copy@ =~= row@);
    }
    copy
}

/// A snapshot of the whole grid.
pub fn copy_pattern(rows: &Vec<Vec<bool>>) -> (copy: Vec<Vec<bool>>)
    ensures
        grid(copy@) == grid(rows@),
{
    let mut copy: Vec<Vec<bool>> = Vec::new();
    let mut i: usize = 0;
    while i < rows.len()
        invariant
            i <= rows.len(),
            copy.len() == i,
            forall|j: int| 0 <= j < i ==> copy[j]@ == rows[j]@,
        decreases rows.len() - i,
    {
        copy.push(copy_row(&rows[i]));
        i += 1;
    }
    proof {
        assert(grid(copy@) =~= grid(rows@));
    }
    copy
}

/// Cuts or pads every row to `length` cells.
pub fn resize_pattern(rows: &mut Vec<Vec<bool>>, length: usize)
    ensures
        grid(final(rows)@) == resized_grid(grid(old(rows)@), length as nat),
        rectangular(grid(final(rows)@), length as int),
{
    let mut i: usize = 0;
    while i < rows.len()
        invariant
            i <= rows.len(),
            rows.len() == old(rows).len(),
            forall|j: int| 0 <= j < i ==> (#[trigger] rows[j])@ == resized(old(rows)[j]@, length as nat),
            forall|j: int| i <= j < rows.len() ==> (#[trigger] rows[j]) == old(rows)[j],
        decreases rows.len() - i,
    {
        resize_row(&mut rows[i], length);
        i += 1;
    }
    proof {
        assert(grid(rows@) =~= resized_grid(grid(old(rows)@), length as nat));
    }
}

/// Sets one cell, if the grid has it; says whether it had.
pub fn set_cell(rows: &mut Vec<Vec<bool>>, track: usize, beat: usize, active: bool) -> (changed: bool)
    ensures
        changed == (track < old(rows).len() && beat < old(rows)[track as int].len()),
        changed ==> grid(final(rows)@) == with_cell(grid(old(rows)@), track as int, beat as int, active),
        !changed ==> *final(rows) == *old(rows),
{
    if track < rows.len() && beat < rows[track].len() {
        rows[track][beat] = active;
        proof {
            assert(grid(rows@) =~= with_cell(grid(old(rows)@), track as int, beat as int, active));
        }
        true
    } else {
        false
    }
}

} // verus!
