//! A small inventory of books: the records, the statements that keep them in
//! a `books` table, and what each request answers.
//!
//! The library decides; it performs no I/O. A caller that serves requests
//! asks a handler for the statement to run, runs it against its storage, and
//! hands the outcome to [`respond`], which gives the response to send. A
//! [`Shelf`] is the table held in memory: it states what each statement does
//! to the rows, and stands in for the database wherever none is at hand.

pub mod book;
pub mod handler;
pub mod ident;
pub mod server;
pub mod shelf;
pub mod statement;
pub mod theorems;

pub use book::{Book, Fields, NewBook, Row};
pub use handler::{
    add_book, delete_book, list_books, respond, update_book, Body, Response, StorageFailure,
};
pub use server::{bind_address, connect_to_db, url_variable, Route, StartupError};
pub use shelf::Shelf;
pub use statement::{Param, Statement};
