//! The four request handlers. Each is two steps around one statement: the
//! handler names the statement to run, and [`respond`] turns what the storage
//! said of it into the response. Running the statement is the caller's part.

use crate::book::{Book, NewBook, Row};
use crate::ident::{fresh_id, hyphenated, id_text, is_random};
use crate::statement::Statement;
use vstd::prelude::*;
use vstd::string::StringExecFns;

verus! {

/// The storage refused or failed a statement. `text` is its own description
/// of what went wrong, passed on as it came.
#[derive(Clone, Debug, PartialEq, Eq)]
pub struct StorageFailure {
    pub text: String,
}

/// What a response carries.
#[derive(Clone, Debug, PartialEq, Eq)]
pub enum Body {
    /// A confirmation, sent as a JSON string.
    Message(String),
    /// Every row that was read, sent as a JSON array of objects.
    Books(Vec<Book>),
    /// An error description, sent as plain text.
    Plain(String),
}

/// A response: the HTTP status and the body.
#[derive(Clone, Debug, PartialEq, Eq)]
pub struct Response {
    pub status: u16,
    pub body: Body,
}

/// A body as mathematical values.
pub enum Content {
    Message(Seq<char>),
    Books(Seq<Row>),
    Plain(Seq<char>),
}

/// A response as mathematical values.
pub struct Reply {
    pub status: u16,
    pub content: Content,
}

/// The rows that `books` hold, in order.
pub open spec fn rows_of(books: Seq<Book>) -> Seq<Row> {
    Seq::new(books.len(), |i: int| books[i]@)
}

impl View for Body {
    type V = Content;

    open spec fn view(&self) -> Content {
        match self {
            Body::Message(text) => Content::Message(text@),
            Body::Books(books) => Content::Books(rows_of(books@)),
            Body::Plain(text) => Content::Plain(text@),
        }
    }
}

impl View for Response {
    type V = Reply;

    open spec fn view(&self) -> Reply {
        Reply { status: self.status, content: self.body@ }
    }
}

/// What the storage said of a statement, as mathematical values: the rows it
/// gave, or the text of its failure.
pub open spec fn outcome_view(outcome: Result<Vec<Book>, StorageFailure>) -> Result<
    Seq<Row>,
    Seq<char>,
> {
    match outcome {
        Ok(books) => Ok(rows_of(books@)),
        Err(failure) => Err(failure.text@),
    }
}

/// The confirmation of a create: it names the new identifier.
pub open spec fn added_message(id: u128) -> Seq<char> {
    "Book "@ + hyphenated(id) + " added successfully"@
}

/// The response to each statement and outcome. A failure is a 500 with the
/// storage's text, whatever the statement. Success is a 200: a confirmation
/// for the three writes, whether or not a row matched, and the rows for the
/// read.
pub open spec fn answer(statement: Statement, outcome: Result<Seq<Row>, Seq<char>>) -> Reply {
    match outcome {
        Err(text) => Reply { status: 500, content: Content::Plain(text) },
        Ok(rows) => Reply {
            status: 200,
            content: match statement {
                Statement::Insert { id, .. } => Content::Message(added_message(id)),
                Statement::SelectAll => Content::Books(rows),
                Statement::Update { .. } => Content::Message("Book updated successfully"@),
                Statement::Delete { .. } => Content::Message("Book deleted successfully"@),
            },
        },
    }
}

/// Create: the insert of `book` under a newly drawn identifier. The caller
/// has no say in the identifier.
pub fn add_book(book: NewBook) -> (statement: Statement)
    ensures
        statement matches Statement::Insert { id, book: inserted } && inserted == book
            && is_random(id),
{
    let id: u128 = fresh_id();
    Statement::Insert { id, book }
}

/// List: the read of every row, unfiltered.
pub fn list_books() -> (statement: Statement)
    ensures
        statement == Statement::SelectAll,
{
    Statement::SelectAll
}

/// Update: the overwrite of every field of the row `book_id` by `updated`.
pub fn update_book(book_id: u128, updated: NewBook) -> (statement: Statement)
    ensures
        statement == (Statement::Update { id: book_id, book: updated }),
{
    Statement::Update { id: book_id, book: updated }
}

/// Delete: the removal of the row `book_id`.
pub fn delete_book(book_id: u128) -> (statement: Statement)
    ensures
        statement == (Statement::Delete { id: book_id }),
{
    Statement::Delete { id: book_id }
}

/// The response to `statement`, given what the storage said of it.
pub fn respond(statement: &Statement, outcome: Result<Vec<Book>, StorageFailure>) -> (response:
    Response)
    ensures
        response@ == answer(*statement, outcome_view(outcome)),
{
    match outcome {
        Err(failure) => Response { status: 500, body: Body::Plain(failure.text) },
        Ok(books) => {
            let body = match statement {
                Statement::Insert { id, .. } => {
                    let mut text = String::from_str("Book ");
                    text.append(id_text(*id).as_str());
                    text.append(" added successfully");
                    Body::Message(text)
                },
                Statement::SelectAll => Body::Books(books),
                Statement::Update { .. } => Body::Message(
                    String::from_str("Book updated successfully"),
                ),
                Statement::Delete { .. } => Body::Message(
                    String::from_str("Book deleted successfully"),
                ),
            };
            Response { status: 200, body }
        },
    }
}

} // verus!
