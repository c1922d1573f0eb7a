//! Worksheet cells and the text that each stands for.

use crate::number::{decimal_int, decimal_of_signed};
use crate::text::texts;
use vstd::prelude::*;

verus! {

/// A cell of a worksheet. A number without a fraction, such as a zip code or a
/// phone number, is a whole number; every other value that is neither empty nor
/// a truth value is the text that it shows.
pub enum Cell {
    Empty,
    Text(String),
    Int(i64),
    Bool(bool),
}

/// The text of a cell.
pub open spec fn cell_text(cell: Cell) -> Seq<char> {
    match cell {
        Cell::Empty => Seq::empty(),
        Cell::Text(s) => s@,
        Cell::Int(i) => decimal_int(i as int),
        Cell::Bool(b) => if b {
            "true"@
        } else {
            "false"@
        },
    }
}

/// The texts of the cells of a row.
pub open spec fn row_text(cells: Seq<Cell>) -> Seq<Seq<char>> {
    Seq::new(cells.len(), |i: int| cell_text(cells[i]))
}

/// The texts of the cells of a sheet.
pub open spec fn sheet_text(rows: Seq<Vec<Cell>>) -> Seq<Seq<Seq<char>>> {
    Seq::new(rows.len(), |i: int| row_text(rows[i]@))
}

/// The text of a cell: whole numbers in decimal, truth values in words.
pub fn cell_to_string(cell: &Cell) -> (r: String)
    ensures
        r@ == cell_text(*cell),
{
    match cell {
        Cell::Empty => String::new(),
        Cell::Text(s) => s.clone(),
        Cell::Int(i) => decimal_of_signed(*i),
        Cell::Bool(b) => if *b {
            "true".to_owned()
        } else {
            "false".to_owned()
        },
    }
}

/// The texts of the cells of a row.
pub fn row_to_strings(cells: &Vec<Cell>) -> (r: Vec<String>)
    ensures
        texts(r@) == row_text(cells@),
{
    let mut out: Vec<String> = Vec::new();
    let mut i: usize = 0;
    while i < cells.len()
        invariant
            i <= cells@.len(),
            texts(out@) == row_text(cells@).take(i as int),
        decreases cells@.len() - i,
    {
        crate::text::push_text(&mut out, cell_to_string(&cells[i]));
        i += 1;
        assert(texts(out@) == row_text(cells@).take(i as int));
    }
    assert(row_text(cells@).take(i as int) == row_text(cells@));
    out
}

} // verus!
