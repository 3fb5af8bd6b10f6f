//! What holds of the handlers and the table together, stated over the
//! statements' effects and the responses, and proved for every table.

use crate::book::{Fields, NewBook, Row};
use crate::handler::{added_message, answer, Content, Reply};
use crate::statement::{lists, Statement};
use vstd::prelude::*;

verus! {

/// The table after `statements` ran one after another, first to last.
pub open spec fn run(table: Map<u128, Fields>, statements: Seq<Statement>) -> Map<u128, Fields>
    decreases statements.len(),
{
    if statements.len() == 0 {
        table
    } else {
        statements.last().effect(run(table, statements.drop_last()))
    }
}

/// Every one of `statements` was accepted by the table it met.
pub open spec fn all_accepted(table: Map<u128, Fields>, statements: Seq<Statement>) -> bool
    decreases statements.len(),
{
    statements.len() == 0 || (all_accepted(table, statements.drop_last())
        && statements.last().accepted(run(table, statements.drop_last())))
}

/// One insert for each identifier, with the payload at the same index.
pub open spec fn inserts(ids: Seq<u128>, books: Seq<NewBook>) -> Seq<Statement> {
    Seq::new(ids.len(), |k: int| Statement::Insert { id: ids[k], book: books[k] })
}

/// Create, then list. A create under an identifier that the table does not
/// hold is accepted and confirmed with a 200 that names the identifier. Any
/// listing of the table after it has exactly one row with that identifier,
/// its fields are the payload's, and every other row was in the table before.
pub proof fn create_then_list(table: Map<u128, Fields>, id: u128, book: NewBook, rows: Seq<Row>)
    requires
        !table.dom().contains(id),
        lists(rows, (Statement::Insert { id, book }).effect(table)),
    ensures
        (Statement::Insert { id, book }).accepted(table),
        answer(Statement::Insert { id, book }, Ok(Seq::<Row>::empty())) == (Reply {
            status: 200,
            content: Content::Message(added_message(id)),
        }),
        answer(Statement::SelectAll, Ok(rows)) == (Reply {
            status: 200,
            content: Content::Books(rows),
        }),
        exists|i: int|
            0 <= i < rows.len() && #[trigger] rows[i] == (Row { id, fields: book@ }) && forall|
                j: int,
            |
                0 <= j < rows.len() && #[trigger] rows[j].id == id ==> j == i,
        forall|j: int|
            0 <= j < rows.len() && #[trigger] rows[j].id != id ==> table.contains_pair(
                rows[j].id,
                rows[j].fields,
            ),
{
    let after = (Statement::Insert { id, book }).effect(table);
    assert(after.dom().contains(id));
    let i = choose|i: int| 0 <= i < rows.len() && #[trigger] rows[i].id == id;
    assert(after.contains_pair(rows[i].id, rows[i].fields));
    assert(rows[i] == (Row { id, fields: book@ }));
    assert forall|j: int| 0 <= j < rows.len() && #[trigger] rows[j].id == id implies j == i by {
        if j < i {
            assert(rows[j].id != rows[i].id);
        }
        if i < j {
            assert(rows[i].id != rows[j].id);
        }
    }
    assert forall|j: int| 0 <= j < rows.len() && #[trigger] rows[j].id != id implies table.contains_pair(
        rows[j].id,
        rows[j].fields,
    ) by {
        assert(after.contains_pair(rows[j].id, rows[j].fields));
    }
}

/// Delete asks for no match. A delete of an identifier that the table does
/// not hold is accepted, leaves the table as it was, and is confirmed with
/// the same 200 as a delete that removed a row.
pub proof fn delete_of_absent_succeeds(table: Map<u128, Fields>, id: u128)
    requires
        !table.dom().contains(id),
    ensures
        (Statement::Delete { id }).accepted(table),
        (Statement::Delete { id }).effect(table) == table,
        answer(Statement::Delete { id }, Ok(Seq::<Row>::empty())) == (Reply {
            status: 200,
            content: Content::Message("Book deleted successfully"@),
        }),
{
    assert(table.remove(id) =~= table);
}

/// A delete of an identifier that the table holds removes that entry and no
/// other, so no listing afterwards has a row with it.
pub proof fn delete_removes(table: Map<u128, Fields>, id: u128, rows: Seq<Row>)
    requires
        lists(rows, (Statement::Delete { id }).effect(table)),
    ensures
        (Statement::Delete { id }).accepted(table),
        forall|j: int| 0 <= j < rows.len() ==> #[trigger] rows[j].id != id,
        forall|other: u128|
            other != id && #[trigger] table.dom().contains(other) ==> (Statement::Delete {
                id,
            }).effect(table).contains_pair(other, table[other]),
{
    let after = (Statement::Delete { id }).effect(table);
    assert forall|j: int| 0 <= j < rows.len() implies #[trigger] rows[j].id != id by {
        assert(after.contains_pair(rows[j].id, rows[j].fields));
    }
}

/// Update replaces wholly. An update of an identifier that the table holds
/// is accepted and confirmed with a 200. Afterwards the table holds the same
/// identifiers, that one with exactly the replacement's fields and every
/// other with the fields it had; any listing has exactly one row with the
/// identifier, and it carries the replacement.
pub proof fn update_replaces(
    table: Map<u128, Fields>,
    id: u128,
    replacement: NewBook,
    rows: Seq<Row>,
)
    requires
        table.dom().contains(id),
        lists(rows, (Statement::Update { id, book: replacement }).effect(table)),
    ensures
        (Statement::Update { id, book: replacement }).accepted(table),
        answer(Statement::Update { id, book: replacement }, Ok(Seq::<Row>::empty())) == (Reply {
            status: 200,
            content: Content::Message("Book updated successfully"@),
        }),
        (Statement::Update { id, book: replacement }).effect(table).dom() == table.dom(),
        (Statement::Update { id, book: replacement }).effect(table)[id] == replacement@,
        forall|other: u128|
            other != id && #[trigger] table.dom().contains(other) ==> (Statement::Update {
                id,
                book: replacement,
            }).effect(table)[other] == table[other],
        exists|i: int|
            0 <= i < rows.len() && #[trigger] rows[i] == (Row { id, fields: replacement@ })
                && forall|j: int| 0 <= j < rows.len() && #[trigger] rows[j].id == id ==> j == i,
{
    let after = (Statement::Update { id, book: replacement }).effect(table);
    assert(after.dom() =~= table.dom());
    assert(after.dom().contains(id));
    let i = choose|i: int| 0 <= i < rows.len() && #[trigger] rows[i].id == id;
    assert(after.contains_pair(rows[i].id, rows[i].fields));
    assert(rows[i] == (Row { id, fields: replacement@ }));
    assert forall|j: int| 0 <= j < rows.len() && #[trigger] rows[j].id == id implies j == i by {
        if j < i {
            assert(rows[j].id != rows[i].id);
        }
        if i < j {
            assert(rows[i].id != rows[j].id);
        }
    }
}

/// An update of an identifier that the table does not hold is accepted and
/// confirmed with the same 200, and changes nothing: no row is added and
/// none is altered.
pub proof fn update_of_absent_changes_nothing(
    table: Map<u128, Fields>,
    id: u128,
    replacement: NewBook,
)
    requires
        !table.dom().contains(id),
    ensures
        (Statement::Update { id, book: replacement }).accepted(table),
        (Statement::Update { id, book: replacement }).effect(table) == table,
        answer(Statement::Update { id, book: replacement }, Ok(Seq::<Row>::empty())) == (Reply {
            status: 200,
            content: Content::Message("Book updated successfully"@),
        }),
{
}

/// Many creates. However the storage orders a number of creates that reach
/// it together, it runs them one after another. If each was accepted, then
/// their identifiers differ from each other and from those held before, the
/// table has one row more for each of them, each identifier has the fields of
/// its own payload, and every earlier entry is as it was. None of this names
/// the order, so every order in which all are accepted ends in the same
/// table.
pub proof fn creates_add_up(table: Map<u128, Fields>, ids: Seq<u128>, books: Seq<NewBook>)
    requires
        table.dom().finite(),
        ids.len() == books.len(),
        all_accepted(table, inserts(ids, books)),
    ensures
        forall|j: int, k: int| 0 <= j < k < ids.len() ==> ids[j] != ids[k],
        forall|k: int| 0 <= k < ids.len() ==> !table.dom().contains(ids[k]),
        run(table, inserts(ids, books)).dom().finite(),
        run(table, inserts(ids, books)).len() == table.len() + ids.len(),
        forall|k: int|
            0 <= k < ids.len() ==> run(table, inserts(ids, books)).contains_pair(
                ids[k],
                #[trigger] books[k]@,
            ),
        forall|id: u128| #[trigger]
            table.dom().contains(id) ==> run(table, inserts(ids, books)).contains_pair(
                id,
                table[id],
            ),
        forall|id: u128| #[trigger]
            run(table, inserts(ids, books)).dom().contains(id) ==> table.dom().contains(id)
                || ids.contains(id),
    decreases ids.len(),
{
    let creates = inserts(ids, books);
    if ids.len() > 0 {
        let n = ids.len() - 1;
        let earlier_ids = ids.drop_last();
        let earlier_books = books.drop_last();
        assert(inserts(earlier_ids, earlier_books) =~= creates.drop_last());
        creates_add_up(table, earlier_ids, earlier_books);
        let before = run(table, creates.drop_last());
        assert(creates.last() == (Statement::Insert { id: ids[n], book: books[n] }));
        assert(!before.dom().contains(ids[n]));
        assert(run(table, creates) == before.insert(ids[n], books[n]@));
        assert forall|j: int, k: int| 0 <= j < k < ids.len() implies ids[j] != ids[k] by {
            if k == n {
                assert(before.contains_pair(earlier_ids[j], earlier_books[j]@));
            } else {
                assert(earlier_ids[j] != earlier_ids[k]);
            }
        }
        assert forall|k: int| 0 <= k < ids.len() implies !table.dom().contains(ids[k]) by {
            if k == n {
                if table.dom().contains(ids[n]) {
                    assert(before.contains_pair(ids[n], table[ids[n]]));
                }
            } else {
                assert(!table.dom().contains(earlier_ids[k]));
            }
        }
        assert forall|k: int| 0 <= k < ids.len() implies run(table, creates).contains_pair(
            ids[k],
            #[trigger] books[k]@,
        ) by {
            if k < n {
                assert(before.contains_pair(earlier_ids[k], earlier_books[k]@));
            }
        }
        assert forall|id: u128| #[trigger] table.dom().contains(id) implies run(
            table,
            creates,
        ).contains_pair(id, table[id]) by {
            assert(before.contains_pair(id, table[id]));
        }
        assert forall|id: u128| #[trigger] run(table, creates).dom().contains(id)
            implies table.dom().contains(id) || ids.contains(id) by {
            if id == ids[n] {
                assert(ids[n as int] == id);
            } else {
                assert(before.dom().contains(id));
                if !table.dom().contains(id) {
                    assert(earlier_ids.contains(id));
                    let k = choose|k: int| 0 <= k < earlier_ids.len() && earlier_ids[k] == id;
                    assert(ids[k] == id);
                }
            }
        }
    }
}

} // verus!
