//! The four statements that the handlers run against the `books` table: each
//! as SQL text with numbered placeholders, and the values bound to them.

use crate::book::{Fields, NewBook, Row};
use vstd::prelude::*;

verus! {

/// One statement against the `books` table.
#[derive(Clone, Debug, PartialEq, Eq)]
pub enum Statement {
    /// Add a row with this identifier and these fields.
    Insert { id: u128, book: NewBook },
    /// Read every row.
    SelectAll,
    /// Overwrite every field of the row with this identifier.
    Update { id: u128, book: NewBook },
    /// Remove the row with this identifier.
    Delete { id: u128 },
}

/// A value bound to a placeholder.
#[derive(Clone, Debug, PartialEq, Eq)]
pub enum Param {
    Id(u128),
    Text(String),
    Count(i32),
}

/// A bound value as a mathematical value.
pub enum Value {
    Id(u128),
    Text(Seq<char>),
    Count(i32),
}

impl View for Param {
    type V = Value;

    open spec fn view(&self) -> Value {
        match self {
            Param::Id(id) => Value::Id(*id),
            Param::Text(text) => Value::Text(text@),
            Param::Count(count) => Value::Count(*count),
        }
    }
}

/// The values of `params`, in order.
pub open spec fn values(params: Seq<Param>) -> Seq<Value> {
    Seq::new(params.len(), |i: int| params[i]@)
}

/// The six caller-supplied fields in column order: title, author, isbn,
/// genre, quantity, available.
pub open spec fn field_values(fields: Fields) -> Seq<Value> {
    seq![
        Value::Text(fields.title),
        Value::Text(fields.author),
        Value::Text(fields.isbn),
        Value::Text(fields.genre),
        Value::Count(fields.quantity),
        Value::Count(fields.available),
    ]
}

/// Whether `rows` lists `table`: every row is an entry of the table, no
/// identifier comes twice, and every entry of the table is among the rows.
/// The order of the rows is left open.
pub open spec fn lists(rows: Seq<Row>, table: Map<u128, Fields>) -> bool {
    &&& forall|i: int|
        0 <= i < rows.len() ==> table.contains_pair(#[trigger] rows[i].id, rows[i].fields)
    &&& forall|i: int, j: int|
        0 <= i < j < rows.len() ==> #[trigger] rows[i].id != #[trigger] rows[j].id
    &&& forall|id: u128| #[trigger]
        table.dom().contains(id) ==> exists|i: int| 0 <= i < rows.len() && #[trigger] rows[i].id == id
}

impl Statement {
    /// The SQL text of each statement.
    pub open spec fn sql_text(&self) -> Seq<char> {
        match self {
            Statement::Insert { .. } =>
                "INSERT INTO books (id, title, author, isbn, genre, quantity, available) VALUES ($1, $2, $3, $4, $5, $6, $7)"@,
            Statement::SelectAll => "SELECT * FROM books"@,
            Statement::Update { .. } =>
                "UPDATE books SET title=$1, author=$2, isbn=$3, genre=$4, quantity=$5, available=$6 WHERE id=$7"@,
            Statement::Delete { .. } => "DELETE FROM books WHERE id=$1"@,
        }
    }

    /// The values bound to `$1`, `$2`, ... in that order. An insert binds the
    /// identifier first, an update binds it last.
    pub open spec fn bound(&self) -> Seq<Value> {
        match self {
            Statement::Insert { id, book } => seq![Value::Id(*id)] + field_values(book@),
            Statement::SelectAll => Seq::empty(),
            Statement::Update { id, book } => field_values(book@) + seq![Value::Id(*id)],
            Statement::Delete { id } => seq![Value::Id(*id)],
        }
    }

    /// Whether a table takes the statement. The table admits one row per
    /// identifier, so it refuses an insert under an identifier it holds;
    /// update and delete ask for no match.
    pub open spec fn accepted(&self, table: Map<u128, Fields>) -> bool {
        match self {
            Statement::Insert { id, .. } => !table.dom().contains(*id),
            _ => true,
        }
    }

    /// The table after the statement. A refused insert, an update or a delete
    /// that matches no row, and a read leave it as it was. An update replaces
    /// all six fields and keeps the identifier.
    pub open spec fn effect(&self, table: Map<u128, Fields>) -> Map<u128, Fields> {
        match self {
            Statement::Insert { id, book } => if table.dom().contains(*id) {
                table
            } else {
                table.insert(*id, book@)
            },
            Statement::SelectAll => table,
            Statement::Update { id, book } => if table.dom().contains(*id) {
                table.insert(*id, book@)
            } else {
                table
            },
            Statement::Delete { id } => table.remove(*id),
        }
    }

    /// Whether `rows` is what the statement gives back from `table` when it is
    /// accepted: a listing of the whole table for the read, nothing for a
    /// write.
    pub open spec fn gives(&self, table: Map<u128, Fields>, rows: Seq<Row>) -> bool {
        match self {
            Statement::SelectAll => lists(rows, table),
            _ => rows.len() == 0,
        }
    }

    /// The statement as SQL, with a placeholder for each bound value.
    pub fn sql(&self) -> (text: &'static str)
        ensures
            text@ == self.sql_text(),
    {
        match self {
            Statement::Insert { .. } =>
                "INSERT INTO books (id, title, author, isbn, genre, quantity, available) VALUES ($1, $2, $3, $4, $5, $6, $7)",
            Statement::SelectAll => "SELECT * FROM books",
            Statement::Update { .. } =>
                "UPDATE books SET title=$1, author=$2, isbn=$3, genre=$4, quantity=$5, available=$6 WHERE id=$7",
            Statement::Delete { .. } => "DELETE FROM books WHERE id=$1",
        }
    }

    /// The values to bind, in placeholder order.
    pub fn params(&self) -> (params: Vec<Param>)
        ensures
            values(params@) == self.bound(),
    {
        let mut params: Vec<Param> = Vec::new();
        match self {
            Statement::Insert { id, book } => {
                params.push(Param::Id(*id));
                push_fields(&mut params, book);
            },
            Statement::SelectAll => {},
            Statement::Update { id, book } => {
                push_fields(&mut params, book);
                params.push(Param::Id(*id));
            },
            Statement::Delete { id } => {
                params.push(Param::Id(*id));
            },
        }
        assert(values(params@) =~= self.bound());
        params
    }
}

/// Appends the six fields of `book` to `params`, in column order.
fn push_fields(params: &mut Vec<Param>, book: &NewBook)
    ensures
        values(final(params)@) == values(old(params)@) + field_values(book@),
{
    params.push(Param::Text(book.title.clone()));
    params.push(Param::Text(book.author.clone()));
    params.push(Param::Text(book.isbn.clone()));
    params.push(Param::Text(book.genre.clone()));
    params.push(Param::Count(book.quantity));
    params.push(Param::Count(book.available));
    assert(values(params@) =~= values(old(params)@) + field_values(book@));
}

} // verus!
