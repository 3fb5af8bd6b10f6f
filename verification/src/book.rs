//! The record kept for each book, and the payload that creates or replaces one.

use vstd::prelude::*;

verus! {

/// What a caller supplies about a book, as mathematical values: four texts and
/// two counts. Nothing ties `available` to `quantity`, and neither count has
/// to be positive.
pub struct Fields {
    pub title: Seq<char>,
    pub author: Seq<char>,
    pub isbn: Seq<char>,
    pub genre: Seq<char>,
    pub quantity: i32,
    pub available: i32,
}

/// A stored book as mathematical values: its identifier and its fields.
pub struct Row {
    pub id: u128,
    pub fields: Fields,
}

/// The payload of a create request, and the full replacement of an update.
#[derive(Clone, Debug, PartialEq, Eq)]
pub struct NewBook {
    pub title: String,
    pub author: String,
    pub isbn: String,
    pub genre: String,
    pub quantity: i32,
    pub available: i32,
}

/// A book as the table holds it. `id` is the 128-bit value of its UUID.
#[derive(Clone, Debug, PartialEq, Eq)]
pub struct Book {
    pub id: u128,
    pub title: String,
    pub author: String,
    pub isbn: String,
    pub genre: String,
    pub quantity: i32,
    pub available: i32,
}

impl View for NewBook {
    type V = Fields;

    open spec fn view(&self) -> Fields {
        Fields {
            title: self.title@,
            author: self.author@,
            isbn: self.isbn@,
            genre: self.genre@,
            quantity: self.quantity,
            available: self.available,
        }
    }
}

impl View for Book {
    type V = Row;

    open spec fn view(&self) -> Row {
        Row {
            id: self.id,
            fields: Fields {
                title: self.title@,
                author: self.author@,
                isbn: self.isbn@,
                genre: self.genre@,
                quantity: self.quantity,
                available: self.available,
            },
        }
    }
}

impl NewBook {
    /// A copy with the same fields.
    pub fn duplicate(&self) -> (copy: NewBook)
        ensures
            copy@ == self@,
    {
        NewBook {
            title: self.title.clone(),
            author: self.author.clone(),
            isbn: self.isbn.clone(),
            genre: self.genre.clone(),
            quantity: self.quantity,
            available: self.available,
        }
    }
}

impl Book {
    /// The book that `fields` describe, stored under `id`.
    pub fn with_id(id: u128, fields: NewBook) -> (book: Book)
        ensures
            book@ == (Row { id, fields: fields@ }),
    {
        Book {
            id,
            title: fields.title,
            author: fields.author,
            isbn: fields.isbn,
            genre: fields.genre,
            quantity: fields.quantity,
            available: fields.available,
        }
    }

    /// A copy with the same identifier and fields.
    pub fn duplicate(&self) -> (copy: Book)
        ensures
            copy@ == self@,
    {
        Book {
            id: self.id,
            title: self.title.clone(),
            author: self.author.clone(),
            isbn: self.isbn.clone(),
            genre: self.genre.clone(),
            quantity: self.quantity,
            available: self.available,
        }
    }
}

} // verus!
