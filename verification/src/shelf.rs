//! The `books` table held in memory. It does to its rows what each statement
//! asks of a table, and so stands for the database where none is at hand.

use crate::book::{Book, Fields, NewBook, Row};
use crate::handler::{rows_of, StorageFailure};
use crate::statement::{lists, Statement};
use vstd::prelude::*;
use vstd::string::StringExecFns;

verus! {

/// No two rows share an identifier.
spec fn distinct(rows: Seq<Row>) -> bool {
    forall|i: int, j: int|
        0 <= i < j < rows.len() ==> #[trigger] rows[i].id != #[trigger] rows[j].id
}

/// Some row has this identifier.
spec fn holds(rows: Seq<Row>, id: u128) -> bool {
    exists|i: int| 0 <= i < rows.len() && #[trigger] rows[i].id == id
}

/// The index of a row with this identifier, where one exists.
spec fn index_of(rows: Seq<Row>, id: u128) -> int {
    choose|i: int| 0 <= i < rows.len() && #[trigger] rows[i].id == id
}

/// The table that `rows` make up: each identifier among them, with the fields
/// of its row.
spec fn table_of(rows: Seq<Row>) -> Map<u128, Fields> {
    Map::new(|id: u128| holds(rows, id), |id: u128| rows[index_of(rows, id)].fields)
}

/// What the table says when an insert names an identifier that it holds.
pub open spec fn duplicate_key_text() -> Seq<char> {
    "duplicate key value violates unique constraint \"books_pkey\""@
}

/// Row `i` is the table's entry for its identifier.
proof fn lemma_entry(rows: Seq<Row>, i: int)
    requires
        distinct(rows),
        0 <= i < rows.len(),
    ensures
        holds(rows, rows[i].id),
        index_of(rows, rows[i].id) == i,
        table_of(rows).contains_pair(rows[i].id, rows[i].fields),
{
    let j = index_of(rows, rows[i].id);
    assert(0 <= j < rows.len() && rows[j].id == rows[i].id);
    if j < i {
        assert(rows[j].id != rows[i].id);
    }
    if i < j {
        assert(rows[i].id != rows[j].id);
    }
}

/// Distinct rows list the table they make up.
proof fn lemma_lists(rows: Seq<Row>)
    requires
        distinct(rows),
    ensures
        lists(rows, table_of(rows)),
{
    assert forall|i: int| 0 <= i < rows.len() implies table_of(rows).contains_pair(
        #[trigger] rows[i].id,
        rows[i].fields,
    ) by {
        lemma_entry(rows, i);
    }
}

/// A row under a new identifier adds one entry.
proof fn lemma_push(rows: Seq<Row>, row: Row)
    requires
        distinct(rows),
        !holds(rows, row.id),
    ensures
        distinct(rows.push(row)),
        table_of(rows.push(row)) == table_of(rows).insert(row.id, row.fields),
{
    let after = rows.push(row);
    assert forall|i: int, j: int| 0 <= i < j < after.len() implies #[trigger] after[i].id
        != #[trigger] after[j].id by {
        if j < rows.len() {
            assert(rows[i].id != rows[j].id);
        } else {
            assert(rows[i].id != row.id);
        }
    }
    assert forall|id: u128| #[trigger] table_of(after).dom().contains(id) <==> table_of(rows).insert(
        row.id,
        row.fields,
    ).dom().contains(id) by {
        if holds(after, id) {
            let k = index_of(after, id);
            if k < rows.len() {
                assert(rows[k].id == id);
            }
        }
        if holds(rows, id) {
            let k = index_of(rows, id);
            assert(after[k].id == id);
        }
        if id == row.id {
            assert(after[rows.len() as int].id == id);
        }
    }
    assert forall|id: u128| #[trigger] table_of(after).dom().contains(id) implies table_of(
        after,
    )[id] == table_of(rows).insert(row.id, row.fields)[id] by {
        let k = index_of(after, id);
        lemma_entry(after, k);
        if k < rows.len() {
            assert(rows[k].id == id);
            lemma_entry(rows, k);
        }
    }
    assert(table_of(after) =~= table_of(rows).insert(row.id, row.fields));
}

/// New fields in row `i`, under the identifier it had, replace that entry.
proof fn lemma_update(rows: Seq<Row>, i: int, row: Row)
    requires
        distinct(rows),
        0 <= i < rows.len(),
        row.id == rows[i].id,
    ensures
        distinct(rows.update(i, row)),
        table_of(rows.update(i, row)) == table_of(rows).insert(row.id, row.fields),
{
    let after = rows.update(i, row);
    assert forall|a: int, b: int| 0 <= a < b < after.len() implies #[trigger] after[a].id
        != #[trigger] after[b].id by {
        assert(rows[a].id != rows[b].id);
    }
    assert forall|id: u128| #[trigger] table_of(after).dom().contains(id) <==> table_of(rows).insert(
        row.id,
        row.fields,
    ).dom().contains(id) by {
        if holds(after, id) {
            let k = index_of(after, id);
            assert(rows[k].id == id);
        }
        if holds(rows, id) {
            let k = index_of(rows, id);
            assert(after[k].id == id);
        }
        if id == row.id {
            assert(after[i].id == id);
        }
    }
    assert forall|id: u128| #[trigger] table_of(after).dom().contains(id) implies table_of(
        after,
    )[id] == table_of(rows).insert(row.id, row.fields)[id] by {
        let k = index_of(after, id);
        lemma_entry(after, k);
        lemma_entry(rows, k);
    }
    assert(table_of(after) =~= table_of(rows).insert(row.id, row.fields));
}

/// Taking row `i` out removes its entry and no other.
proof fn lemma_remove(rows: Seq<Row>, i: int)
    requires
        distinct(rows),
        0 <= i < rows.len(),
    ensures
        distinct(rows.remove(i)),
        table_of(rows.remove(i)) == table_of(rows).remove(rows[i].id),
{
    let after = rows.remove(i);
    assert forall|a: int, b: int| 0 <= a < b < after.len() implies #[trigger] after[a].id
        != #[trigger] after[b].id by {
        let a0 = if a < i { a } else { a + 1 };
        let b0 = if b < i { b } else { b + 1 };
        assert(rows[a0].id != rows[b0].id);
    }
    assert forall|id: u128| #[trigger] table_of(after).dom().contains(id) <==> table_of(rows).remove(
        rows[i].id,
    ).dom().contains(id) by {
        if holds(after, id) {
            let k = index_of(after, id);
            let k0 = if k < i { k } else { k + 1 };
            assert(rows[k0].id == id);
            lemma_entry(rows, k0);
            lemma_entry(rows, i);
        }
        if holds(rows, id) && id != rows[i].id {
            let k = index_of(rows, id);
            let k1 = if k < i { k } else { k - 1 };
            assert(after[k1].id == id);
        }
    }
    assert forall|id: u128| #[trigger] table_of(after).dom().contains(id) implies table_of(
        after,
    )[id] == table_of(rows).remove(rows[i].id)[id] by {
        let k = index_of(after, id);
        let k0 = if k < i { k } else { k + 1 };
        lemma_entry(after, k);
        lemma_entry(rows, k0);
    }
    assert(table_of(after) =~= table_of(rows).remove(rows[i].id));
}

/// Distinct rows make up a finite table with one entry for each row.
proof fn lemma_count(rows: Seq<Row>)
    requires
        distinct(rows),
    ensures
        table_of(rows).dom().finite(),
        table_of(rows).len() == rows.len(),
    decreases rows.len(),
{
    if rows.len() == 0 {
        assert(table_of(rows) =~= Map::<u128, Fields>::empty());
    } else {
        let earlier = rows.drop_last();
        assert forall|i: int, j: int| 0 <= i < j < earlier.len() implies #[trigger] earlier[i].id
            != #[trigger] earlier[j].id by {
            assert(rows[i].id != rows[j].id);
        }
        assert forall|i: int| 0 <= i < earlier.len() implies #[trigger] earlier[i].id
            != rows.last().id by {
            assert(rows[i].id != rows[rows.len() - 1].id);
        }
        lemma_count(earlier);
        lemma_push(earlier, rows.last());
        assert(earlier.push(rows.last()) =~= rows);
    }
}

/// Where the row with this identifier stands, if there is one.
fn position(rows: &Vec<Book>, id: u128) -> (found: Option<usize>)
    ensures
        match found {
            Some(i) => i < rows.len() && rows[i as int].id == id,
            None => !holds(rows_of(rows@), id),
        },
{
    let mut i: usize = 0;
    while i < rows.len()
        invariant
            i <= rows.len(),
            forall|k: int| 0 <= k < i ==> rows[k].id != id,
        decreases rows.len() - i,
    {
        if rows[i].id == id {
            return Some(i);
        }
        i += 1;
    }
    assert forall|k: int| 0 <= k < rows_of(rows@).len() implies #[trigger] rows_of(rows@)[k].id
        != id by {
        assert(rows[k].id != id);
    }
    None
}

/// A copy of every row, in the order held.
fn copy_rows(rows: &Vec<Book>) -> (copy: Vec<Book>)
    ensures
        rows_of(copy@) == rows_of(rows@),
{
    let mut copy: Vec<Book> = Vec::new();
    let mut i: usize = 0;
    while i < rows.len()
        invariant
            i <= rows.len(),
            copy.len() == i,
            forall|k: int| 0 <= k < i ==> copy[k]@ == rows[k]@,
        decreases rows.len() - i,
    {
        copy.push(rows[i].duplicate());
        i += 1;
    }
    assert(rows_of(copy@) =~= rows_of(rows@));
    copy
}

/// The `books` table in memory: rows under distinct identifiers.
pub struct Shelf {
    rows: Vec<Book>,
}

impl View for Shelf {
    type V = Map<u128, Fields>;

    /// The table: the fields of each book, by identifier.
    closed spec fn view(&self) -> Map<u128, Fields> {
        table_of(rows_of(self.rows@))
    }
}

impl Shelf {
    #[verifier::type_invariant]
    spec fn one_row_per_id(&self) -> bool {
        distinct(rows_of(self.rows@))
    }

    /// An empty table.
    pub fn new() -> (shelf: Shelf)
        ensures
            shelf@ == Map::<u128, Fields>::empty(),
    {
        let shelf = Shelf { rows: Vec::new() };
        assert(shelf@ =~= Map::<u128, Fields>::empty());
        shelf
    }

    /// How many books the table holds.
    pub fn len(&self) -> (count: usize)
        ensures
            self@.dom().finite(),
            count == self@.len(),
    {
        proof {
            use_type_invariant(self);
            lemma_count(rows_of(self.rows@));
        }
        self.rows.len()
    }

    /// Runs `statement` against the table. The table afterwards is the
    /// statement's effect on the table before. An accepted statement gives
    /// its rows; an insert under an identifier that is held is refused, with
    /// the text of [`duplicate_key_text`], and changes nothing.
    pub fn execute(&mut self, statement: &Statement) -> (outcome: Result<Vec<Book>, StorageFailure>)
        ensures
            final(self)@ == statement.effect(old(self)@),
            match outcome {
                Ok(books) => statement.accepted(old(self)@) && statement.gives(
                    old(self)@,
                    rows_of(books@),
                ),
                Err(failure) => !statement.accepted(old(self)@) && failure.text@
                    == duplicate_key_text(),
            },
    {
        proof {
            use_type_invariant(&*self);
        }
        let mut rows: Vec<Book> = Vec::new();
        std::mem::swap(&mut rows, &mut self.rows);
        let ghost before = rows_of(rows@);
        let found = match statement {
            Statement::Insert { id, .. } => position(&rows, *id),
            Statement::SelectAll => None,
            Statement::Update { id, .. } => position(&rows, *id),
            Statement::Delete { id } => position(&rows, *id),
        };
        let outcome = match statement {
            Statement::Insert { id, book } => {
                if found.is_some() {
                    proof {
                        lemma_entry(before, found.unwrap() as int);
                    }
                    Err(
                        StorageFailure {
                            text: String::from_str(
                                "duplicate key value violates unique constraint \"books_pkey\"",
                            ),
                        },
                    )
                } else {
                    let row = Book::with_id(*id, book.duplicate());
                    proof {
                        lemma_push(before, row@);
                        assert(rows_of(rows@.push(row)) =~= before.push(row@));
                    }
                    rows.push(row);
                    Ok(Vec::new())
                }
            },
            Statement::SelectAll => {
                proof {
                    lemma_lists(before);
                }
                Ok(copy_rows(&rows))
            },
            Statement::Update { id, book } => {
                match found {
                    Some(i) => {
                        let row = Book::with_id(*id, book.duplicate());
                        proof {
                            lemma_entry(before, i as int);
                            lemma_update(before, i as int, row@);
                            assert(rows_of(rows@.update(i as int, row)) =~= before.update(
                                i as int,
                                row@,
                            ));
                        }
                        rows.set(i, row);
                    },
                    None => {},
                }
                Ok(Vec::new())
            },
            Statement::Delete { id } => {
                match found {
                    Some(i) => {
                        proof {
                            lemma_entry(before, i as int);
                            lemma_remove(before, i as int);
                            assert(rows_of(rows@.remove(i as int)) =~= before.remove(i as int));
                        }
                        let _ = rows.remove(i);
                    },
                    None => {
                        assert(table_of(before).remove(*id) =~= table_of(before));
                    },
                }
                Ok(Vec::new())
            },
        };
        self.rows = rows;
        outcome
    }
}

} // verus!
