use book_inventory::{
    add_book, delete_book, list_books, respond, update_book, Body, Book, NewBook, Param, Response,
    Route, Statement,
};

fn sample() -> NewBook {
    NewBook {
        title: String::from("Dune"),
        author: String::from("Herbert"),
        isbn: String::from("0441013597"),
        genre: String::from("SciFi"),
        quantity: 3,
        available: 2,
    }
}

fn sample_params() -> Vec<Param> {
    vec![
        Param::Text(String::from("Dune")),
        Param::Text(String::from("Herbert")),
        Param::Text(String::from("0441013597")),
        Param::Text(String::from("SciFi")),
        Param::Count(3),
        Param::Count(2),
    ]
}

#[test]
fn insert_binds_the_identifier_first() {
    let statement = Statement::Insert { id: 42, book: sample() };
    assert_eq!(
        statement.sql(),
        "INSERT INTO books (id, title, author, isbn, genre, quantity, available) VALUES ($1, $2, $3, $4, $5, $6, $7)"
    );
    let mut expected = vec![Param::Id(42)];
    expected.extend(sample_params());
    assert_eq!(statement.params(), expected);
}

#[test]
fn update_binds_the_identifier_last() {
    let statement = update_book(42, sample());
    assert_eq!(statement, Statement::Update { id: 42, book: sample() });
    assert_eq!(
        statement.sql(),
        "UPDATE books SET title=$1, author=$2, isbn=$3, genre=$4, quantity=$5, available=$6 WHERE id=$7"
    );
    let mut expected = sample_params();
    expected.push(Param::Id(42));
    assert_eq!(statement.params(), expected);
}

#[test]
fn delete_binds_only_the_identifier() {
    let statement = delete_book(u128::MAX);
    assert_eq!(statement, Statement::Delete { id: u128::MAX });
    assert_eq!(statement.sql(), "DELETE FROM books WHERE id=$1");
    assert_eq!(statement.params(), vec![Param::Id(u128::MAX)]);
}

#[test]
fn list_reads_every_row_and_binds_nothing() {
    let statement = list_books();
    assert_eq!(statement, Statement::SelectAll);
    assert_eq!(statement.sql(), "SELECT * FROM books");
    assert_eq!(statement.params(), vec![]);
}

#[test]
fn create_inserts_the_payload_as_given() {
    let statement = add_book(sample());
    match statement {
        Statement::Insert { book, .. } => assert_eq!(book, sample()),
        other => panic!("not an insert: {:?}", other),
    }
}

#[test]
fn the_read_answers_with_the_rows_it_was_given() {
    let rows = vec![Book::with_id(2, sample()), Book::with_id(1, sample())];
    let response = respond(&list_books(), Ok(rows.clone()));
    assert_eq!(response, Response { status: 200, body: Body::Books(rows) });
}

#[test]
fn writes_answer_with_their_confirmation() {
    assert_eq!(
        respond(&update_book(1, sample()), Ok(vec![])),
        Response { status: 200, body: Body::Message(String::from("Book updated successfully")) }
    );
    assert_eq!(
        respond(&delete_book(1), Ok(vec![])),
        Response { status: 200, body: Body::Message(String::from("Book deleted successfully")) }
    );
}

#[test]
fn each_route_has_its_method_and_path() {
    assert_eq!((Route::AddBook.method(), Route::AddBook.pattern()), ("POST", "/books"));
    assert_eq!((Route::ListBooks.method(), Route::ListBooks.pattern()), ("GET", "/books"));
    assert_eq!((Route::UpdateBook.method(), Route::UpdateBook.pattern()), ("PUT", "/books/{id}"));
    assert_eq!(
        (Route::DeleteBook.method(), Route::DeleteBook.pattern()),
        ("DELETE", "/books/{id}")
    );
}

#[test]
fn copies_keep_every_field() {
    let book = Book::with_id(77, sample());
    assert_eq!(book.id, 77);
    assert_eq!(book.title, "Dune");
    assert_eq!(book.available, 2);
    assert_eq!(book.duplicate(), book);
    assert_eq!(sample().duplicate(), sample());
}
