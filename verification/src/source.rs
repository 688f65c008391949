//! The parsed range that a sheet is built from. The range and its values
//! belong to the `calamine` crate; nothing here is proved of them.

use crate::excel::{DataTypeInfo, DataTypeInfoView};
use calamine::{DataType, Range};
use vstd::prelude::*;

verus! {

#[verifier::external_type_specification]
#[verifier::external_body]
#[verifier::reject_recursive_types(T)]
pub struct ExRange<T>(Range<T>);

#[verifier::external_type_specification]
#[verifier::external_body]
pub struct ExDataType(DataType);

/// One value of a parsed range: its native kind, the text that it is
/// displayed with, and the name of the error, if it is an error value.
pub struct SourceCell {
    pub kind: DataTypeInfoView,
    pub text: Seq<char>,
    pub error_name: Seq<char>,
}

/// The values that a parsed range holds, row by row: as many rows as
/// `Range::height` and as many columns as `Range::width` count, and in each
/// place the value that indexing the range by (row, column) gives.
pub uninterp spec fn range_cells(range: Range<DataType>) -> Seq<Seq<SourceCell>>;

/// The number of columns of such rows: that of the first, and none without
/// a row.
pub open spec fn source_width(cells: Seq<Seq<SourceCell>>) -> nat {
    if cells.len() == 0 {
        0
    } else {
        cells[0].len()
    }
}

/// `Range::height`: the number of rows of the range, 0 for an empty one.
#[verifier::external_body]
pub(crate) fn range_height(range: &Range<DataType>) -> (h: usize)
    ensures
        h == range_cells(*range).len(),
{
    range.height()
}

/// `Range::width`: the number of columns of the range, the same for every
/// row; 0 for an empty range.
#[verifier::external_body]
pub(crate) fn range_width(range: &Range<DataType>) -> (w: usize)
    ensures
        w == source_width(range_cells(*range)),
        forall|i: int|
            0 <= i < range_cells(*range).len() ==> (#[trigger] range_cells(*range)[i]).len() == w,
{
    range.width()
}

/// `Range`'s `Index<(usize, usize)>`, by (row, column) counted from the
/// first cell of the range; it panics outside the range. Of the value
/// there, the native kind: each variant of `DataType` as the variant of the
/// same name, a number with a fraction as its bits (`f64::to_bits`).
#[verifier::external_body]
pub(crate) fn range_kind(range: &Range<DataType>, row: usize, col: usize) -> (kind: DataTypeInfo)
    requires
        row < range_cells(*range).len(),
        col < range_cells(*range)[row as int].len(),
    ensures
        kind@ == range_cells(*range)[row as int][col as int].kind,
{
    match &range[(row, col)] {
        DataType::Empty => DataTypeInfo::Empty,
        DataType::String(_) => DataTypeInfo::String,
        DataType::Float(f) => DataTypeInfo::Float(f.to_bits()),
        DataType::Int(i) => DataTypeInfo::Int(*i),
        DataType::Bool(b) => DataTypeInfo::Bool(*b),
        DataType::Error(_) => DataTypeInfo::Error,
        DataType::DateTime(d) => DataTypeInfo::DateTime(d.to_bits()),
        DataType::Duration(d) => DataTypeInfo::Duration(d.to_bits()),
        DataType::DateTimeIso(s) => DataTypeInfo::DateTimeIso(s.clone()),
        DataType::DurationIso(s) => DataTypeInfo::DurationIso(s.clone()),
    }
}

/// `Range`'s `Index<(usize, usize)>` again. Of the value there, the text
/// that `Display` of `DataType` writes.
#[verifier::external_body]
pub(crate) fn range_text(range: &Range<DataType>, row: usize, col: usize) -> (text: String)
    requires
        row < range_cells(*range).len(),
        col < range_cells(*range)[row as int].len(),
    ensures
        text@ == range_cells(*range)[row as int][col as int].text,
{
    range[(row, col)].to_string()
}

/// `Range`'s `Index<(usize, usize)>` once more, for an error value. Of the
/// error there, what `Debug` of `CellErrorType` writes, which is the name
/// of its variant.
#[verifier::external_body]
pub(crate) fn range_error_name(range: &Range<DataType>, row: usize, col: usize) -> (name: String)
    requires
        row < range_cells(*range).len(),
        col < range_cells(*range)[row as int].len(),
        range_cells(*range)[row as int][col as int].kind is Error,
    ensures
        name@ == range_cells(*range)[row as int][col as int].error_name,
{
    match &range[(row, col)] {
        DataType::Error(e) => format!("{:?}", e),
        _ => String::new(),
    }
}

} // verus!
