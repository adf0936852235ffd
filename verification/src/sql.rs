//! Values on their way to and from SQLite, and what can go wrong there.

use vstd::prelude::*;

use crate::text::{decimal, join, join3, print_u64};

verus! {

// ------------------------------------------------------------------
// Parameters and cells
// ------------------------------------------------------------------

/// A value bound to a parameter of a statement.
#[derive(Debug, Clone)]
pub enum Param {
    Null,
    Integer(i64),
    Text(String),
}

/// The model of a [`Param`].
pub enum ParamView {
    Null,
    Integer(i64),
    Text(Seq<char>),
}

impl View for Param {
    type V = ParamView;

    open spec fn view(&self) -> ParamView {
        match self {
            Param::Null => ParamView::Null,
            Param::Integer(n) => ParamView::Integer(*n),
            Param::Text(s) => ParamView::Text(s@),
        }
    }
}

/// The parameter that stands for a text or its absence.
pub open spec fn text_or_null(value: Option<Seq<char>>) -> ParamView {
    match value {
        Some(s) => ParamView::Text(s),
        None => ParamView::Null,
    }
}

/// The parameter that stands for an integer or its absence.
pub open spec fn integer_or_null(value: Option<i64>) -> ParamView {
    match value {
        Some(n) => ParamView::Integer(n),
        None => ParamView::Null,
    }
}

/// A value found in a column of a row.
#[derive(Debug, Clone)]
pub enum Cell {
    Null,
    Integer(i64),
    Real,
    Text(String),
    /// A text that is not UTF-8, with the words on where it fails.
    BadText(String),
    Blob,
    /// The row has no such column.
    Missing,
}

/// The model of a [`Cell`].
pub enum CellView {
    Null,
    Integer(i64),
    Real,
    Text(Seq<char>),
    BadText(Seq<char>),
    Blob,
    Missing,
}

impl View for Cell {
    type V = CellView;

    open spec fn view(&self) -> CellView {
        match self {
            Cell::Null => CellView::Null,
            Cell::Integer(n) => CellView::Integer(*n),
            Cell::Real => CellView::Real,
            Cell::Text(s) => CellView::Text(s@),
            Cell::BadText(s) => CellView::BadText(s@),
            Cell::Blob => CellView::Blob,
            Cell::Missing => CellView::Missing,
        }
    }
}

// ------------------------------------------------------------------
// Failures
// ------------------------------------------------------------------

/// Why a statement, or the reading of its reply, failed.
#[derive(Debug, Clone)]
pub enum SqlFailure {
    /// A constraint of the schema refused the change.
    Constraint(String),
    /// A row was expected and there was none.
    NoRows,
    /// The column holds another type of value than the one asked for.
    ColumnType { index: u64, name: String, found: String },
    /// The text of the column cannot be read as the value asked for.
    Conversion { index: u64, reason: String },
    /// There is no such column.
    ColumnIndex(u64),
    /// Any other failure, in SQLite's words.
    Other(String),
}

/// The model of a [`SqlFailure`].
pub enum FailureView {
    Constraint(Seq<char>),
    NoRows,
    ColumnType { index: u64, name: Seq<char>, found: Seq<char> },
    Conversion { index: u64, reason: Seq<char> },
    ColumnIndex(u64),
    Other(Seq<char>),
}

impl View for SqlFailure {
    type V = FailureView;

    open spec fn view(&self) -> FailureView {
        match self {
            SqlFailure::Constraint(s) => FailureView::Constraint(s@),
            SqlFailure::NoRows => FailureView::NoRows,
            SqlFailure::ColumnType { index, name, found } => FailureView::ColumnType {
                index: *index,
                name: name@,
                found: found@,
            },
            SqlFailure::Conversion { index, reason } => FailureView::Conversion {
                index: *index,
                reason: reason@,
            },
            SqlFailure::ColumnIndex(index) => FailureView::ColumnIndex(*index),
            SqlFailure::Other(s) => FailureView::Other(s@),
        }
    }
}

/// The words for a failure.
pub open spec fn failure_message(failure: FailureView) -> Seq<char> {
    match failure {
        FailureView::Constraint(s) => s,
        FailureView::NoRows => "Query returned no rows"@,
        FailureView::ColumnType { index, name, found } => "Invalid column type "@ + found
            + " at index: "@ + decimal(index as nat) + ", name: "@ + name,
        FailureView::Conversion { index, reason } => "Conversion error from type Text at index: "@
            + decimal(index as nat) + ", "@ + reason,
        FailureView::ColumnIndex(index) => "Invalid column index: "@ + decimal(index as nat),
        FailureView::Other(s) => s,
    }
}

impl SqlFailure {
    /// The words for the failure.
    pub fn message(&self) -> (r: String)
        ensures
            r@ == failure_message(self@),
    {
        match self {
            SqlFailure::Constraint(s) => s.clone(),
            SqlFailure::NoRows => "Query returned no rows".to_owned(),
            SqlFailure::ColumnType { index, name, found } => {
                let head = join3("Invalid column type ", found.as_str(), " at index: ");
                let place = join3(head.as_str(), print_u64(*index).as_str(), ", name: ");
                join(place.as_str(), name.as_str())
            },
            SqlFailure::Conversion { index, reason } => {
                let head = join3(
                    "Conversion error from type Text at index: ",
                    print_u64(*index).as_str(),
                    ", ",
                );
                join(head.as_str(), reason.as_str())
            },
            SqlFailure::ColumnIndex(index) => join(
                "Invalid column index: ",
                print_u64(*index).as_str(),
            ),
            SqlFailure::Other(s) => s.clone(),
        }
    }
}

// ------------------------------------------------------------------
// Reading columns
// ------------------------------------------------------------------

/// A row, as the sequence of its cells.
pub type RowView = Seq<CellView>;

/// The cell of a column.
pub open spec fn cell_at(row: RowView, index: int) -> CellView {
    if 0 <= index < row.len() {
        row[index]
    } else {
        CellView::Missing
    }
}

/// The name of the type of a cell.
pub open spec fn cell_type(cell: CellView) -> Seq<char> {
    match cell {
        CellView::Null => "Null"@,
        CellView::Integer(_) => "Integer"@,
        CellView::Real => "Real"@,
        CellView::Text(_) | CellView::BadText(_) => "Text"@,
        CellView::Blob | CellView::Missing => "Blob"@,
    }
}

/// The failure of a column that does not hold what was asked for.
pub open spec fn mismatch(cell: CellView, index: u64, name: Seq<char>) -> FailureView {
    match cell {
        CellView::Missing => FailureView::ColumnIndex(index),
        CellView::BadText(reason) => FailureView::Conversion { index, reason },
        _ => FailureView::ColumnType { index, name, found: cell_type(cell) },
    }
}

/// The failure of a column that does not hold an integer.
pub open spec fn integer_mismatch(cell: CellView, index: u64, name: Seq<char>) -> FailureView {
    match cell {
        CellView::Missing => FailureView::ColumnIndex(index),
        _ => FailureView::ColumnType { index, name, found: cell_type(cell) },
    }
}

/// The integer in a column.
pub open spec fn integer_at(row: RowView, index: u64, name: Seq<char>) -> Result<
    i64,
    FailureView,
> {
    match cell_at(row, index as int) {
        CellView::Integer(n) => Ok(n),
        cell => Err(integer_mismatch(cell, index, name)),
    }
}

/// The text in a column.
pub open spec fn text_at(row: RowView, index: u64, name: Seq<char>) -> Result<
    Seq<char>,
    FailureView,
> {
    match cell_at(row, index as int) {
        CellView::Text(s) => Ok(s),
        cell => Err(mismatch(cell, index, name)),
    }
}

/// The text in a column that may be empty.
pub open spec fn optional_text_at(row: RowView, index: u64, name: Seq<char>) -> Result<
    Option<Seq<char>>,
    FailureView,
> {
    match cell_at(row, index as int) {
        CellView::Null => Ok(None),
        CellView::Text(s) => Ok(Some(s)),
        cell => Err(mismatch(cell, index, name)),
    }
}

/// The sequence of the elements' views.
pub open spec fn views<T: View>(items: Seq<T>) -> Seq<T::V> {
    items.map_values(|item: T| item@)
}

/// The view of an optional value.
pub open spec fn opt_view<T: View>(value: Option<T>) -> Option<T::V> {
    match value {
        Some(v) => Some(v@),
        None => None,
    }
}

/// The views of a result.
pub open spec fn result_view<T: View, E: View>(value: Result<T, E>) -> Result<T::V, E::V> {
    match value {
        Ok(v) => Ok(v@),
        Err(e) => Err(e@),
    }
}

/// The views of a result that may be absent.
pub open spec fn opt_result_view<T: View, E: View>(value: Result<Option<T>, E>) -> Result<
    Option<T::V>,
    E::V,
> {
    match value {
        Ok(v) => Ok(opt_view(v)),
        Err(e) => Err(e@),
    }
}

/// The views of a result that holds a list.
pub open spec fn list_result_view<T: View, E: View>(value: Result<Vec<T>, E>) -> Result<
    Seq<T::V>,
    E::V,
> {
    match value {
        Ok(v) => Ok(views(v@)),
        Err(e) => Err(e@),
    }
}

fn print_cell_type(cell: &Cell) -> (r: String)
    ensures
        r@ == cell_type(cell@),
{
    match cell {
        Cell::Null => "Null".to_owned(),
        Cell::Integer(_) => "Integer".to_owned(),
        Cell::Real => "Real".to_owned(),
        Cell::Text(_) | Cell::BadText(_) => "Text".to_owned(),
        Cell::Blob | Cell::Missing => "Blob".to_owned(),
    }
}

fn take_cell(row: &Vec<Cell>, index: u64) -> (r: Cell)
    ensures
        r@ == cell_at(views(row@), index as int),
{
    if index < row.len() as u64 {
        match &row[index as usize] {
            Cell::Null => Cell::Null,
            Cell::Integer(n) => Cell::Integer(*n),
            Cell::Real => Cell::Real,
            Cell::Text(s) => Cell::Text(s.clone()),
            Cell::BadText(s) => Cell::BadText(s.clone()),
            Cell::Blob => Cell::Blob,
            Cell::Missing => Cell::Missing,
        }
    } else {
        Cell::Missing
    }
}

/// Reads an integer column.
pub fn get_integer(row: &Vec<Cell>, index: u64, name: &str) -> (r: Result<i64, SqlFailure>)
    ensures
        result_view(r) == integer_at(views(row@), index, name@),
{
    let cell = take_cell(row, index);
    match cell {
        Cell::Integer(n) => Ok(n),
        Cell::Missing => Err(SqlFailure::ColumnIndex(index)),
        _ => Err(
            SqlFailure::ColumnType { index, name: name.to_owned(), found: print_cell_type(&cell) },
        ),
    }
}

/// Reads a text column.
pub fn get_text(row: &Vec<Cell>, index: u64, name: &str) -> (r: Result<String, SqlFailure>)
    ensures
        result_view(r) == text_at(views(row@), index, name@),
{
    let cell = take_cell(row, index);
    let found = print_cell_type(&cell);
    match cell {
        Cell::Text(s) => Ok(s),
        Cell::BadText(reason) => Err(SqlFailure::Conversion { index, reason }),
        Cell::Missing => Err(SqlFailure::ColumnIndex(index)),
        _ => Err(SqlFailure::ColumnType { index, name: name.to_owned(), found }),
    }
}

/// Reads a text column that may be empty.
pub fn get_optional_text(row: &Vec<Cell>, index: u64, name: &str) -> (r: Result<
    Option<String>,
    SqlFailure,
>)
    ensures
        match r {
            Ok(s) => optional_text_at(views(row@), index, name@) == Ok::<
                Option<Seq<char>>,
                FailureView,
            >(opt_view(s)),
            Err(e) => optional_text_at(views(row@), index, name@) == Err::<
                Option<Seq<char>>,
                FailureView,
            >(e@),
        },
{
    let cell = take_cell(row, index);
    let found = print_cell_type(&cell);
    match cell {
        Cell::Null => Ok(None),
        Cell::Text(s) => Ok(Some(s)),
        Cell::BadText(reason) => Err(SqlFailure::Conversion { index, reason }),
        Cell::Missing => Err(SqlFailure::ColumnIndex(index)),
        _ => Err(SqlFailure::ColumnType { index, name: name.to_owned(), found }),
    }
}

/// A column gives a text or an integer exactly where its cell holds one, and a
/// column that may be empty gives nothing exactly where its cell is empty.
pub proof fn law_columns_give_their_cells(row: RowView, index: u64, name: Seq<char>)
    ensures
        match text_at(row, index, name) {
            Ok(s) => index < row.len() && row[index as int] == CellView::Text(s),
            Err(_) => index >= row.len() || !(row[index as int] is Text),
        },
        match integer_at(row, index, name) {
            Ok(n) => index < row.len() && row[index as int] == CellView::Integer(n),
            Err(_) => index >= row.len() || !(row[index as int] is Integer),
        },
        match optional_text_at(row, index, name) {
            Ok(Some(s)) => index < row.len() && row[index as int] == CellView::Text(s),
            Ok(None) => index < row.len() && row[index as int] is Null,
            Err(_) => index >= row.len() || !(row[index as int] is Text || row[index as int] is Null),
        },
{
}

/// A value goes to the database as it is, and an absent one as `NULL`.
pub proof fn law_absent_values_are_null(text: Option<Seq<char>>, number: Option<i64>)
    ensures
        match text_or_null(text) {
            ParamView::Text(s) => text == Some(s),
            ParamView::Null => text is None,
            _ => false,
        },
        match integer_or_null(number) {
            ParamView::Integer(n) => number == Some(n),
            ParamView::Null => number is None,
            _ => false,
        },
{
}

/// The name of the type of a cell that holds no text, as SQLite has it.
pub open spec fn type_word(cell: CellView) -> Seq<char> {
    if cell is Null {
        "Null"@
    } else if cell is Integer {
        "Integer"@
    } else if cell is Real {
        "Real"@
    } else if cell is Blob {
        "Blob"@
    } else {
        "Text"@
    }
}

/// A column that is missing is told by its index. One that holds another type is
/// told by its index, its name and the type, and one with a text that is none by
/// its index and the reason.
pub proof fn law_wrong_columns_are_named(row: RowView, index: u64, name: Seq<char>)
    requires
        forall|i: int| 0 <= i < row.len() ==> !((#[trigger] row[i]) is Missing),
    ensures
        index >= row.len() ==> {
            &&& text_at(row, index, name) == Err::<Seq<char>, FailureView>(
                FailureView::ColumnIndex(index),
            )
            &&& integer_at(row, index, name) == Err::<i64, FailureView>(
                FailureView::ColumnIndex(index),
            )
            &&& optional_text_at(row, index, name) == Err::<Option<Seq<char>>, FailureView>(
                FailureView::ColumnIndex(index),
            )
        },
        index < row.len() ==> {
            let cell = row[index as int];
            let wrong = FailureView::ColumnType { index, name, found: type_word(cell) };
            &&& integer_at(row, index, name) matches Err(e) ==> e == wrong
            &&& text_at(row, index, name) matches Err(e) ==> match cell {
                CellView::BadText(reason) => e == (FailureView::Conversion { index, reason }),
                _ => e == wrong,
            }
            &&& optional_text_at(row, index, name) matches Err(e) ==> match cell {
                CellView::BadText(reason) => e == (FailureView::Conversion { index, reason }),
                _ => e == wrong,
            }
        },
{
}

/// The words for a failure are those of SQLite, or tell the column by its index,
/// and its name or the reason last.
pub proof fn law_failures_are_told(failure: FailureView)
    ensures
        match failure {
            FailureView::Constraint(words) | FailureView::Other(words) => failure_message(failure)
                == words,
            FailureView::NoRows => failure_message(failure) == "Query returned no rows"@,
            FailureView::ColumnType { index, name, found } => {
                let message = failure_message(failure);
                let tail = found + " at index: "@ + decimal(index as nat) + ", name: "@ + name;
                message.len() >= tail.len() && message.skip(message.len() - tail.len()) == tail
            },
            FailureView::Conversion { index, reason } => {
                let message = failure_message(failure);
                let tail = " at index: "@ + decimal(index as nat) + ", "@ + reason;
                message.len() >= tail.len() && message.skip(message.len() - tail.len()) == tail
            },
            FailureView::ColumnIndex(index) => {
                let message = failure_message(failure);
                let tail = ": "@ + decimal(index as nat);
                message.len() >= tail.len() && message.skip(message.len() - tail.len()) == tail
            },
        },
{
    let message = failure_message(failure);
    match failure {
        FailureView::ColumnType { index, name, found } => {
            let tail = found + " at index: "@ + decimal(index as nat) + ", name: "@ + name;
            assert(message =~= "Invalid column type "@ + tail);
            assert(message.skip(message.len() - tail.len()) =~= tail);
        },
        FailureView::Conversion { index, reason } => {
            reveal_strlit("Conversion error from type Text at index: ");
            reveal_strlit(" at index: ");
            let tail = " at index: "@ + decimal(index as nat) + ", "@ + reason;
            assert(message.skip(message.len() - tail.len()) =~= tail);
        },
        FailureView::ColumnIndex(index) => {
            reveal_strlit("Invalid column index: ");
            reveal_strlit(": ");
            let tail = ": "@ + decimal(index as nat);
            assert(message.skip(message.len() - tail.len()) =~= tail);
        },
        _ => {},
    }
}

} // verus!
