use customer_api::customer::{Customer, Record};
use customer_api::handler::{
    after_execute, after_query, begin, Action, Body, Pending, Request, Response, Status,
};
use customer_api::statement::{Command, Query};

fn ann() -> Customer {
    Customer { id: None, name: "Ann".to_string(), email: "ann@example.com".to_string() }
}

#[test]
fn status_codes() {
    assert_eq!(Status::Success.code(), 200);
    assert_eq!(Status::NoContent.code(), 204);
    assert_eq!(Status::InternalServerError.code(), 500);
}

#[test]
fn create_begins_with_an_insert() {
    assert_eq!(
        begin(Request::Create(ann())),
        Action::Execute {
            command: Command::Insert {
                name: "Ann".to_string(),
                email: "ann@example.com".to_string()
            },
            then: Pending::Listing,
        }
    );
}

#[test]
fn create_ignores_an_id_sent_along() {
    let with_id = Customer { id: Some(99), ..ann() };
    assert_eq!(begin(Request::Create(with_id)), begin(Request::Create(ann())));
}

#[test]
fn list_begins_with_the_query() {
    assert_eq!(begin(Request::List), Action::Query(Query::AllCustomers));
}

#[test]
fn update_begins_with_an_update_by_the_path_id() {
    let body = Customer { id: Some(1), name: "Bob".to_string(), email: "bob@x".to_string() };
    assert_eq!(
        begin(Request::Update(12, body)),
        Action::Execute {
            command: Command::Update {
                id: 12,
                name: "Bob".to_string(),
                email: "bob@x".to_string()
            },
            then: Pending::Listing,
        }
    );
}

#[test]
fn delete_begins_with_a_delete() {
    assert_eq!(
        begin(Request::Delete(12)),
        Action::Execute { command: Command::Delete { id: 12 }, then: Pending::Nothing }
    );
}

#[test]
fn a_write_that_succeeded_leads_to_the_query() {
    assert_eq!(after_execute(Pending::Listing, Ok(1)), Action::Query(Query::AllCustomers));
}

#[test]
fn a_write_that_touched_nothing_still_leads_to_the_query() {
    assert_eq!(after_execute(Pending::Listing, Ok(0)), Action::Query(Query::AllCustomers));
}

#[test]
fn a_removal_is_answered_with_no_content() {
    let expected = Action::Respond(Response { status: Status::NoContent, body: Body::Empty });
    assert_eq!(after_execute(Pending::Nothing, Ok(1)), expected);
    assert_eq!(after_execute(Pending::Nothing, Ok(0)), expected);
}

#[test]
fn a_write_that_failed_is_answered_with_the_error_text() {
    let expected = Action::Respond(Response {
        status: Status::InternalServerError,
        body: Body::Text("connection closed".to_string()),
    });
    assert_eq!(after_execute(Pending::Listing, Err("connection closed".to_string())), expected);
    assert_eq!(after_execute(Pending::Nothing, Err("connection closed".to_string())), expected);
}

#[test]
fn rows_are_answered_as_customers() {
    let rows = vec![
        Record { id: 2, name: "Bob".to_string(), email: "bob@x".to_string() },
        Record { id: 1, name: "Ann".to_string(), email: "ann@x".to_string() },
    ];
    assert_eq!(
        after_query(Ok(rows)),
        Action::Respond(Response {
            status: Status::Success,
            body: Body::Customers(vec![
                Customer { id: Some(2), name: "Bob".to_string(), email: "bob@x".to_string() },
                Customer { id: Some(1), name: "Ann".to_string(), email: "ann@x".to_string() },
            ]),
        })
    );
}

#[test]
fn no_rows_are_answered_as_an_empty_collection() {
    assert_eq!(
        after_query(Ok(Vec::new())),
        Action::Respond(Response { status: Status::Success, body: Body::Customers(Vec::new()) })
    );
}

#[test]
fn a_query_that_failed_is_answered_with_the_error_text() {
    assert_eq!(
        after_query(Err("db error".to_string())),
        Action::Respond(Response {
            status: Status::InternalServerError,
            body: Body::Text("db error".to_string()),
        })
    );
}

#[test]
fn response_constructors() {
    assert_eq!(
        Response::collection(vec![ann()]),
        Response { status: Status::Success, body: Body::Customers(vec![ann()]) }
    );
    assert_eq!(Response::no_content(), Response { status: Status::NoContent, body: Body::Empty });
    assert_eq!(
        Response::internal_error("boom".to_string()),
        Response { status: Status::InternalServerError, body: Body::Text("boom".to_string()) }
    );
}
