//! A request handled from beginning to end against the table in memory:
//! the steps of the handler, each carried out as the model says.

use vstd::prelude::*;
use crate::customer::{customers_of, CustomerView, Details, RecordView};
use crate::handler::{
    after_execute, after_query, begin, first_step, Action, ActionView, Pending, Request,
    RequestView, Response, ResponseView,
};
use crate::model::{lemma_listing_counts_rows, lists, TableView};
use crate::table::{sequence_exhausted_text, Table};

verus! {

/// Whether `customers` is what a client may be shown of a table with these
/// rows: the rows as some reading of the whole table returned them.
pub open spec fn shows(customers: Seq<CustomerView>, rows: Map<int, Details>) -> bool {
    exists|records: Seq<RecordView>| #[trigger]
        lists(records, rows) && customers == customers_of(records)
}

/// Whether `response` may end the handling of a request for which `then`
/// is pending, on a table in this state.
pub open spec fn completes(then: Pending, table: TableView, response: ResponseView) -> bool {
    match then {
        Pending::Listing => exists|customers: Seq<CustomerView>| #[trigger]
            shows(customers, table.rows) && response == ResponseView::collection(customers),
        Pending::Nothing => response == ResponseView::no_content(),
    }
}

/// The table after a request has been handled: changed by the request's
/// command, if it has one.
pub open spec fn table_after(request: RequestView, table: TableView) -> TableView {
    match first_step(request) {
        ActionView::Execute { command, .. } => table.apply(command),
        _ => table,
    }
}

/// Whether `response` may answer `request` when the table is in the state
/// `table` beforehand and nothing else touches it meanwhile.
pub open spec fn answers(request: RequestView, table: TableView, response: ResponseView) -> bool {
    match first_step(request) {
        ActionView::Execute { command, then } => if table.accepts(command) {
            completes(then, table.apply(command), response)
        } else {
            response == ResponseView::internal_error(sequence_exhausted_text())
        },
        ActionView::Query(_) => completes(Pending::Listing, table, response),
        ActionView::Respond(first) => response == first,
    }
}

/// What a collection shown of a table tells of its rows: every customer
/// shown has an id and is the row with that id, no id is shown twice, every
/// row is shown, and so there are as many customers as rows.
pub proof fn lemma_shown_is_rows(customers: Seq<CustomerView>, rows: Map<int, Details>)
    requires
        shows(customers, rows),
    ensures
        forall|i: int|
            0 <= i < customers.len() ==> (#[trigger] customers[i]).id is Some && rows.contains_key(
                customers[i].id.unwrap(),
            ) && rows[customers[i].id.unwrap()] == customers[i].details(),
        forall|i: int, j: int|
            0 <= i < j < customers.len() ==> (#[trigger] customers[i]).id != (
            #[trigger] customers[j]).id,
        forall|id: int| #[trigger]
            rows.contains_key(id) ==> exists|i: int|
                0 <= i < customers.len() && (#[trigger] customers[i]).id == Some(id),
        rows.dom().finite(),
        customers.len() == rows.dom().len(),
{
    let records = choose|records: Seq<RecordView>| #[trigger]
        lists(records, rows) && customers == customers_of(records);
    lemma_listing_counts_rows(records, rows);
    assert forall|id: int| #[trigger] rows.contains_key(id) implies exists|i: int|
        0 <= i < customers.len() && (#[trigger] customers[i]).id == Some(id) by {
        let i = choose|i: int| 0 <= i < records.len() && (#[trigger] records[i]).id == id;
        assert(customers[i].id == Some(id));
    }
}

/// Handles a request against the table in memory: the handler's steps, one
/// after another, until the step is a response.
pub fn serve(table: &mut Table, request: Request) -> (response: Response)
    requires
        old(table).wf(),
    ensures
        final(table).wf(),
        final(table)@ == table_after(request@, old(table)@),
        answers(request@, old(table)@, response@),
{
    let ghost start = table@;
    let ghost asked = request@;
    let mut action = begin(request);
    loop
        invariant
            table.wf(),
            start == old(table)@,
            asked == request@,
            action@ is Execute ==> action@ == first_step(asked) && table@ == start,
            action@ is Query ==> table@ == table_after(asked, start) && (first_step(asked) matches ActionView::Execute {
                command,
                then,
            } ==> then == Pending::Listing && start.accepts(command)),
            action@ matches ActionView::Respond(response) ==> table@ == table_after(asked, start)
                && answers(asked, start, response),
        decreases
                match action@ {
                    ActionView::Execute { .. } => 2int,
                    ActionView::Query(_) => 1int,
                    ActionView::Respond(_) => 0int,
                },
    {
        match action {
            Action::Respond(response) => {
                return response;
            },
            Action::Execute { command, then } => {
                let outcome = table.execute(command);
                action = after_execute(then, outcome);
            },
            Action::Query(query) => {
                let records = table.query(query);
                proof {
                    assert(shows(customers_of(records.deep_view()), table@.rows));
                }
                action = after_query(Ok(records));
            },
        }
    }
}

} // verus!
