//! What holds of every run of the service, proved from the handler's steps
//! and the table's model.

use vstd::prelude::*;
use crate::customer::CustomerView;
use crate::handler::{first_step, ActionView, BodyView, RequestView, ResponseView, Status};
use crate::model::{lemma_apply_preserves_wf, TableView};
use crate::service::{answers, lemma_shown_is_rows, shows, table_after};
use crate::statement::CommandView;

verus! {

/// The collection that a response carries, if it is a success with one.
pub open spec fn collection_of(response: ResponseView) -> Option<Seq<CustomerView>> {
    match response.body {
        BodyView::Customers(customers) if response.status == Status::Success => Some(customers),
        _ => None,
    }
}

/// Creating a customer and then listing shows the collection with exactly
/// one new customer: the name and email given, under the id that the table
/// assigned, which no row had before. All the rows from before are still
/// shown, unchanged. The answer to the creation shows the same.
pub proof fn law_create_then_list(
    table: TableView,
    customer: CustomerView,
    created: ResponseView,
    listed: ResponseView,
)
    requires
        table.wf(),
        !table.exhausted(),
        answers(RequestView::Create(customer), table, created),
        answers(RequestView::List, table_after(RequestView::Create(customer), table), listed),
    ensures
        ({
            let id = table.next_id;
            let after = table_after(RequestView::Create(customer), table);
            let added = CustomerView { id: Some(id), name: customer.name, email: customer.email };
            &&& !table.rows.contains_key(id)
            &&& after.rows == table.rows.insert(id, customer.details())
            &&& table_after(RequestView::List, after) == after
            &&& collection_of(created) matches Some(answered)
            &&& shows(answered, after.rows)
            &&& collection_of(listed) matches Some(shown)
            &&& shows(shown, after.rows)
            &&& shown.contains(added)
            &&& shown.len() == table.rows.dom().len() + 1
            &&& forall|i: int|
                0 <= i < shown.len() && (#[trigger] shown[i]).id != Some(id) ==> {
                    &&& shown[i].id matches Some(other)
                    &&& table.rows.contains_key(other)
                    &&& table.rows[other] == shown[i].details()
                }
        }),
{
    let id = table.next_id;
    let after = table_after(RequestView::Create(customer), table);
    let added = CustomerView { id: Some(id), name: customer.name, email: customer.email };
    let shown = collection_of(listed).unwrap();
    lemma_shown_is_rows(shown, after.rows);
    assert(after.rows.contains_key(id));
    let at = choose|i: int| 0 <= i < shown.len() && (#[trigger] shown[i]).id == Some(id);
    assert(shown[at] == added);
    assert(after.rows.dom() =~= table.rows.dom().insert(id));
}

/// Updating a customer that exists replaces the name and email of the row
/// with that id and touches nothing else: a listing afterwards shows the
/// new values under the same id, and as many customers as before.
pub proof fn law_update_existing(
    table: TableView,
    id: int,
    customer: CustomerView,
    updated: ResponseView,
    listed: ResponseView,
)
    requires
        table.wf(),
        table.rows.contains_key(id),
        answers(RequestView::Update(id, customer), table, updated),
        answers(RequestView::List, table_after(RequestView::Update(id, customer), table), listed),
    ensures
        ({
            let after = table_after(RequestView::Update(id, customer), table);
            let changed = CustomerView { id: Some(id), name: customer.name, email: customer.email };
            &&& after.rows == table.rows.insert(id, customer.details())
            &&& after.rows.dom() == table.rows.dom()
            &&& after.next_id == table.next_id
            &&& collection_of(updated) matches Some(answered)
            &&& shows(answered, after.rows)
            &&& collection_of(listed) matches Some(shown)
            &&& shows(shown, after.rows)
            &&& shown.contains(changed)
            &&& shown.len() == table.rows.dom().len()
        }),
{
    let after = table_after(RequestView::Update(id, customer), table);
    let changed = CustomerView { id: Some(id), name: customer.name, email: customer.email };
    let shown = collection_of(listed).unwrap();
    lemma_shown_is_rows(shown, after.rows);
    assert(after.rows.contains_key(id));
    let at = choose|i: int| 0 <= i < shown.len() && (#[trigger] shown[i]).id == Some(id);
    assert(shown[at] == changed);
    assert(after.rows.dom() =~= table.rows.dom());
}

/// Updating an id that no row has succeeds all the same, with status 200
/// and the collection, and leaves the table as it was.
pub proof fn law_update_missing(
    table: TableView,
    id: int,
    customer: CustomerView,
    updated: ResponseView,
)
    requires
        !table.rows.contains_key(id),
        answers(RequestView::Update(id, customer), table, updated),
    ensures
        table_after(RequestView::Update(id, customer), table) == table,
        updated.status.spec_code() == 200,
        collection_of(updated) matches Some(answered) && shows(answered, table.rows),
{
}

/// Removing a customer that exists removes the row with that id and no
/// other. The answer is status 204 with an empty body, and a listing
/// afterwards shows one customer fewer, none of them under that id.
pub proof fn law_delete_existing(table: TableView, id: int, deleted: ResponseView, listed: ResponseView)
    requires
        table.wf(),
        table.rows.contains_key(id),
        answers(RequestView::Delete(id), table, deleted),
        answers(RequestView::List, table_after(RequestView::Delete(id), table), listed),
    ensures
        ({
            let after = table_after(RequestView::Delete(id), table);
            &&& after.rows == table.rows.remove(id)
            &&& after.next_id == table.next_id
            &&& deleted == ResponseView::no_content()
            &&& deleted.status.spec_code() == 204
            &&& collection_of(listed) matches Some(shown)
            &&& shows(shown, after.rows)
            &&& shown.len() == table.rows.dom().len() - 1
            &&& forall|i: int| 0 <= i < shown.len() ==> (#[trigger] shown[i]).id != Some(id)
            &&& forall|other: int|
                other != id && table.rows.contains_key(other) ==> shown.contains(
                    CustomerView {
                        id: Some(other),
                        name: table.rows[other].name,
                        email: table.rows[other].email,
                    },
                )
        }),
{
    let after = table_after(RequestView::Delete(id), table);
    let shown = collection_of(listed).unwrap();
    lemma_shown_is_rows(shown, after.rows);
    assert(after.rows.dom() =~= table.rows.dom().remove(id));
    assert forall|other: int| other != id && table.rows.contains_key(other) implies shown.contains(
        CustomerView {
            id: Some(other),
            name: table.rows[other].name,
            email: table.rows[other].email,
        },
    ) by {
        assert(after.rows.contains_key(other));
        let at = choose|i: int| 0 <= i < shown.len() && (#[trigger] shown[i]).id == Some(other);
        assert(shown[at] == CustomerView {
            id: Some(other),
            name: table.rows[other].name,
            email: table.rows[other].email,
        });
    }
}

/// Removing an id that no row has is answered like any removal, with status
/// 204 and an empty body, and leaves the table as it was. So a removal done
/// twice leaves what the removal done once leaves, whatever the table held.
pub proof fn law_delete_missing(table: TableView, id: int, deleted: ResponseView)
    requires
        answers(RequestView::Delete(id), table, deleted),
    ensures
        deleted == ResponseView::no_content(),
        deleted.status.spec_code() == 204,
        !table.rows.contains_key(id) ==> table_after(RequestView::Delete(id), table) == table,
        table_after(RequestView::Delete(id), table_after(RequestView::Delete(id), table))
            == table_after(RequestView::Delete(id), table),
{
    assert(table.rows.remove(id).remove(id) =~= table.rows.remove(id));
    if !table.rows.contains_key(id) {
        assert(table.rows.remove(id) =~= table.rows);
    }
}

/// A customer created, then changed, then removed: the table holds the
/// customer as created, then as changed, then no longer, and the rows it
/// held before are there throughout. The id is not given out again.
pub proof fn law_round_trip(table: TableView, created: CustomerView, changed: CustomerView)
    requires
        table.wf(),
        !table.exhausted(),
    ensures
        ({
            let id = table.next_id;
            let first = table_after(RequestView::Create(created), table);
            let second = table_after(RequestView::Update(id, changed), first);
            let third = table_after(RequestView::Delete(id), second);
            &&& first.rows == table.rows.insert(id, created.details())
            &&& second.rows == table.rows.insert(id, changed.details())
            &&& third.rows == table.rows
            &&& third.next_id == id + 1
            &&& third.wf()
        }),
{
    let id = table.next_id;
    let first = table_after(RequestView::Create(created), table);
    let second = table_after(RequestView::Update(id, changed), first);
    let third = table_after(RequestView::Delete(id), second);
    assert(first.rows.contains_key(id));
    assert(second.rows =~= table.rows.insert(id, changed.details()));
    assert(third.rows =~= table.rows);
}

/// A command leaves every row alone but the one it is aimed at.
pub proof fn law_other_rows_untouched(table: TableView, command: CommandView, id: int)
    requires
        table.target(command) != Some(id),
    ensures
        table.apply(command).rows.contains_key(id) == table.rows.contains_key(id),
        table.rows.contains_key(id) ==> table.apply(command).rows[id] == table.rows[id],
{
}

/// Two commands aimed at different rows may be carried out in either order:
/// the table is the same afterwards.
pub proof fn law_unrelated_commands_commute(
    table: TableView,
    first: CommandView,
    second: CommandView,
)
    requires
        table.target(first) != table.target(second),
    ensures
        table.apply(first).apply(second) == table.apply(second).apply(first),
{
    let one = table.apply(first).apply(second);
    let other = table.apply(second).apply(first);
    assert(one.rows =~= other.rows);
}

/// The id of the customer that a request creates, changes or removes, if
/// there can be one.
pub open spec fn aim(request: RequestView, table: TableView) -> Option<int> {
    match first_step(request) {
        ActionView::Execute { command, .. } => table.target(command),
        _ => None,
    }
}

/// Two requests aimed at different customers may be handled in either
/// order: the table is the same afterwards.
pub proof fn law_unrelated_requests_commute(
    table: TableView,
    first: RequestView,
    second: RequestView,
)
    requires
        aim(first, table) != aim(second, table),
    ensures
        table_after(second, table_after(first, table)) == table_after(
            first,
            table_after(second, table),
        ),
{
    match (first_step(first), first_step(second)) {
        (
            ActionView::Execute { command: one, .. },
            ActionView::Execute { command: other, .. },
        ) => {
            law_unrelated_commands_commute(table, one, other);
        },
        _ => {},
    }
}

/// Running commands never hands back an id: the id to be assigned next only
/// grows, and the table stays well-formed.
pub proof fn lemma_next_id_grows(table: TableView, commands: Seq<CommandView>, done: int)
    requires
        table.wf(),
        0 <= done <= commands.len(),
    ensures
        table.apply_all(commands).wf(),
        table.apply_all(commands.take(done)).wf(),
        table.apply_all(commands.take(done)).next_id <= table.apply_all(commands).next_id,
    decreases commands.len(),
{
    if commands.len() == 0 {
        assert(commands.take(done) =~= commands);
    } else if done == commands.len() {
        assert(commands.take(done) =~= commands);
        lemma_next_id_grows(table, commands.drop_last(), 0);
        lemma_apply_preserves_wf(table.apply_all(commands.drop_last()), commands.last());
    } else {
        assert(commands.drop_last().take(done) =~= commands.take(done));
        lemma_next_id_grows(table, commands.drop_last(), done);
        lemma_apply_preserves_wf(table.apply_all(commands.drop_last()), commands.last());
    }
}

/// Whether a command is an update or a removal of the row with this id.
pub open spec fn names(command: CommandView, id: int) -> bool {
    match command {
        CommandView::Update { id: named, .. } => named == id,
        CommandView::Delete { id: named } => named == id,
        _ => false,
    }
}

/// What holds of an id that the table has given out is settled by the
/// commands that name it. A run of commands none of which names the id,
/// however the commands of different requests are interleaved in it, leaves
/// the row with that id as it was, and leaves it absent if it was absent.
pub proof fn law_row_untouched_by_unrelated_run(
    table: TableView,
    commands: Seq<CommandView>,
    id: int,
)
    requires
        table.wf(),
        id < table.next_id,
        forall|k: int| 0 <= k < commands.len() ==> !names(#[trigger] commands[k], id),
    ensures
        table.apply_all(commands).rows.contains_key(id) == table.rows.contains_key(id),
        table.rows.contains_key(id) ==> table.apply_all(commands).rows[id] == table.rows[id],
    decreases commands.len(),
{
    if commands.len() > 0 {
        let earlier = commands.drop_last();
        law_row_untouched_by_unrelated_run(table, earlier, id);
        lemma_next_id_grows(table, earlier, 0);
        assert(earlier.take(0) =~= Seq::<CommandView>::empty());
        assert(!names(commands[commands.len() - 1], id));
        law_other_rows_untouched(table.apply_all(earlier), commands.last(), id);
    }
}

/// Of two insertions in one run of commands, however the commands of
/// different requests are interleaved, the later one receives the larger
/// id, and each receives an id that no row has at that moment.
pub proof fn law_created_ids_increase(
    table: TableView,
    commands: Seq<CommandView>,
    earlier: int,
    later: int,
)
    requires
        table.wf(),
        0 <= earlier < later < commands.len(),
        commands[earlier] is Insert,
        commands[later] is Insert,
        !table.apply_all(commands.take(later)).exhausted(),
    ensures
        ({
            let first = table.apply_all(commands.take(earlier));
            let second = table.apply_all(commands.take(later));
            &&& !first.exhausted()
            &&& first.apply(commands[earlier]).rows.contains_key(first.next_id)
            &&& second.apply(commands[later]).rows.contains_key(second.next_id)
            &&& !first.rows.contains_key(first.next_id)
            &&& !second.rows.contains_key(second.next_id)
            &&& first.next_id < second.next_id
        }),
{
    let first = table.apply_all(commands.take(earlier));
    let second = table.apply_all(commands.take(later));
    let upto = commands.take(later);
    assert(upto.take(earlier) =~= commands.take(earlier));
    assert(upto.take(earlier + 1).drop_last() =~= commands.take(earlier));
    assert(upto.take(earlier + 1).last() == commands[earlier]);
    lemma_next_id_grows(table, upto, earlier);
    lemma_next_id_grows(table, upto, earlier + 1);
}

} // verus!
