use book_inventory::{
    add_book, bind_address, connect_to_db, delete_book, list_books, respond, update_book, Body,
    Book, NewBook, Response, Shelf, StartupError, Statement, StorageFailure,
};

fn dune() -> NewBook {
    NewBook {
        title: String::from("Dune"),
        author: String::from("Herbert"),
        isbn: String::from("0441013597"),
        genre: String::from("SciFi"),
        quantity: 3,
        available: 3,
    }
}

fn emma() -> NewBook {
    NewBook {
        title: String::from("Emma"),
        author: String::from("Austen"),
        isbn: String::from("0141439580"),
        genre: String::from("Novel"),
        quantity: 2,
        available: 1,
    }
}

fn serve(shelf: &mut Shelf, statement: &Statement) -> Response {
    let outcome = shelf.execute(statement);
    respond(statement, outcome)
}

fn listing(shelf: &mut Shelf) -> Vec<Book> {
    match serve(shelf, &list_books()) {
        Response { status: 200, body: Body::Books(books) } => books,
        other => panic!("not a listing: {:?}", other),
    }
}

fn id_of(statement: &Statement) -> u128 {
    match statement {
        Statement::Insert { id, .. } => *id,
        other => panic!("not an insert: {:?}", other),
    }
}

#[test]
fn create_answers_with_the_new_identifier_and_the_row_is_listed() {
    let mut shelf = Shelf::new();
    let statement = add_book(dune());
    let id = id_of(&statement);
    let response = serve(&mut shelf, &statement);
    assert_eq!(response.status, 200);
    let text = match response.body {
        Body::Message(text) => text,
        other => panic!("not a message: {:?}", other),
    };
    let shown = uuid::Uuid::from_u128(id).to_string();
    assert_eq!(text, format!("Book {} added successfully", shown));
    assert!(text.contains("added successfully"));
    assert_eq!(uuid::Uuid::parse_str(&text[5..41]).unwrap().as_u128(), id);

    let books = listing(&mut shelf);
    assert_eq!(
        books,
        vec![Book {
            id,
            title: String::from("Dune"),
            author: String::from("Herbert"),
            isbn: String::from("0441013597"),
            genre: String::from("SciFi"),
            quantity: 3,
            available: 3,
        }]
    );
}

#[test]
fn update_of_an_unknown_identifier_succeeds_and_changes_nothing() {
    let mut shelf = Shelf::new();
    let created = add_book(dune());
    assert_eq!(serve(&mut shelf, &created).status, 200);
    let before = listing(&mut shelf);

    let unknown: u128 = id_of(&created) ^ 1;
    let response = serve(&mut shelf, &update_book(unknown, emma()));
    assert_eq!(
        response,
        Response { status: 200, body: Body::Message(String::from("Book updated successfully")) }
    );
    assert_eq!(listing(&mut shelf), before);
    assert_eq!(shelf.len(), 1);
}

#[test]
fn an_unreachable_database_binds_nothing() {
    assert_eq!(bind_address(false), Err(StartupError::Unreachable));
    assert_eq!(StartupError::Unreachable.message(), "Cant connect to the database url");
    assert_eq!(bind_address(true), Ok(("127.0.0.1", 8080)));
}

#[test]
fn a_missing_connection_string_is_fatal() {
    assert_eq!(connect_to_db(None), Err(StartupError::MissingUrl));
    assert_eq!(StartupError::MissingUrl.message(), "Please put a proper SUPABASE_URL in .env");
    assert_eq!(
        connect_to_db(Some(String::from("postgres://localhost/books"))),
        Ok(String::from("postgres://localhost/books"))
    );
    assert_eq!(book_inventory::url_variable(), "SUPABASE_URL");
}

#[test]
fn delete_of_a_created_book_takes_it_off_the_listing() {
    let mut shelf = Shelf::new();
    let kept = add_book(emma());
    let gone = add_book(dune());
    assert_eq!(serve(&mut shelf, &kept).status, 200);
    assert_eq!(serve(&mut shelf, &gone).status, 200);
    assert_eq!(shelf.len(), 2);

    let response = serve(&mut shelf, &delete_book(id_of(&gone)));
    assert_eq!(
        response,
        Response { status: 200, body: Body::Message(String::from("Book deleted successfully")) }
    );
    let books = listing(&mut shelf);
    assert_eq!(books.len(), 1);
    assert_eq!(books[0], Book::with_id(id_of(&kept), emma()));
    assert!(books.iter().all(|book| book.id != id_of(&gone)));
}

#[test]
fn delete_of_an_absent_identifier_still_succeeds() {
    let mut shelf = Shelf::new();
    let response = serve(&mut shelf, &delete_book(7));
    assert_eq!(
        response,
        Response { status: 200, body: Body::Message(String::from("Book deleted successfully")) }
    );
    assert_eq!(shelf.len(), 0);
    let again = serve(&mut shelf, &delete_book(7));
    assert_eq!(again.status, 200);
}

#[test]
fn update_replaces_every_field_and_keeps_the_identifier() {
    let mut shelf = Shelf::new();
    let first = add_book(dune());
    let second = add_book(dune());
    assert_eq!(serve(&mut shelf, &first).status, 200);
    assert_eq!(serve(&mut shelf, &second).status, 200);

    let response = serve(&mut shelf, &update_book(id_of(&first), emma()));
    assert_eq!(response.status, 200);
    let books = listing(&mut shelf);
    assert_eq!(books.len(), 2);
    let replaced: Vec<&Book> = books.iter().filter(|book| book.id == id_of(&first)).collect();
    assert_eq!(replaced.len(), 1);
    assert_eq!(*replaced[0], Book::with_id(id_of(&first), emma()));
    let other: Vec<&Book> = books.iter().filter(|book| book.id == id_of(&second)).collect();
    assert_eq!(other.len(), 1);
    assert_eq!(*other[0], Book::with_id(id_of(&second), dune()));
}

#[test]
fn many_creates_give_as_many_identifiers_and_rows() {
    let mut shelf = Shelf::new();
    let mut ids: Vec<u128> = Vec::new();
    let mut count: i32 = 0;
    while count < 64 {
        let mut book = dune();
        book.quantity = count;
        let statement = add_book(book);
        ids.push(id_of(&statement));
        assert_eq!(serve(&mut shelf, &statement).status, 200);
        count += 1;
    }
    let mut sorted = ids.clone();
    sorted.sort();
    sorted.dedup();
    assert_eq!(sorted.len(), 64);
    assert_eq!(shelf.len(), 64);
    let books = listing(&mut shelf);
    assert_eq!(books.len(), 64);
    for (index, id) in ids.iter().enumerate() {
        let found: Vec<&Book> = books.iter().filter(|book| book.id == *id).collect();
        assert_eq!(found.len(), 1);
        assert_eq!(found[0].quantity, index as i32);
    }
}

#[test]
fn creates_in_either_order_end_in_the_same_table() {
    let one = Statement::Insert { id: 1, book: dune() };
    let two = Statement::Insert { id: 2, book: emma() };
    let mut forward = Shelf::new();
    assert!(forward.execute(&one).is_ok());
    assert!(forward.execute(&two).is_ok());
    let mut backward = Shelf::new();
    assert!(backward.execute(&two).is_ok());
    assert!(backward.execute(&one).is_ok());
    let mut a = listing(&mut forward);
    let mut b = listing(&mut backward);
    a.sort_by_key(|book| book.id);
    b.sort_by_key(|book| book.id);
    assert_eq!(a, b);
    assert_eq!(a, vec![Book::with_id(1, dune()), Book::with_id(2, emma())]);
}

#[test]
fn a_storage_failure_is_a_500_with_its_text() {
    let text = "error communicating with database: connection reset";
    let statements = vec![
        Statement::Insert { id: 9, book: dune() },
        list_books(),
        update_book(9, emma()),
        delete_book(9),
    ];
    for statement in statements.iter() {
        let response =
            respond(statement, Err(StorageFailure { text: String::from(text) }));
        assert_eq!(response, Response { status: 500, body: Body::Plain(String::from(text)) });
    }
}

#[test]
fn an_identifier_that_is_held_is_refused() {
    let mut shelf = Shelf::new();
    let first = Statement::Insert { id: 5, book: dune() };
    let second = Statement::Insert { id: 5, book: emma() };
    assert_eq!(shelf.execute(&first), Ok(vec![]));
    let outcome = shelf.execute(&second);
    assert_eq!(
        outcome,
        Err(StorageFailure {
            text: String::from("duplicate key value violates unique constraint \"books_pkey\""),
        })
    );
    let response = respond(&second, outcome);
    assert_eq!(response.status, 500);
    assert_eq!(
        response.body,
        Body::Plain(String::from("duplicate key value violates unique constraint \"books_pkey\""))
    );
    assert_eq!(listing(&mut shelf), vec![Book::with_id(5, dune())]);
}

#[test]
fn an_empty_table_lists_nothing() {
    let mut shelf = Shelf::new();
    assert_eq!(
        serve(&mut shelf, &list_books()),
        Response { status: 200, body: Body::Books(vec![]) }
    );
    assert_eq!(shelf.len(), 0);
}

#[test]
fn counts_are_stored_as_given() {
    let mut shelf = Shelf::new();
    let odd = NewBook {
        title: String::new(),
        author: String::from("\u{e9}"),
        isbn: String::from("not an isbn"),
        genre: String::new(),
        quantity: -4,
        available: i32::MAX,
    };
    let statement = Statement::Insert { id: 0, book: odd.clone() };
    assert_eq!(serve(&mut shelf, &statement).status, 200);
    assert_eq!(listing(&mut shelf), vec![Book::with_id(0, odd)]);
}
