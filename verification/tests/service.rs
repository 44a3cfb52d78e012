use customer_api::customer::Customer;
use customer_api::handler::{Body, Request, Response, Status};
use customer_api::model::MAX_ID;
use customer_api::service::serve;
use customer_api::table::Table;

fn new(name: &str, email: &str) -> Customer {
    Customer { id: None, name: name.to_string(), email: email.to_string() }
}

fn stored(id: i32, name: &str, email: &str) -> Customer {
    Customer { id: Some(id), name: name.to_string(), email: email.to_string() }
}

fn collection(response: Response) -> Vec<Customer> {
    assert_eq!(response.status, Status::Success);
    match response.body {
        Body::Customers(mut customers) => {
            customers.sort_by_key(|customer| customer.id);
            customers
        }
        other => panic!("expected a collection, got {:?}", other),
    }
}

fn list(table: &mut Table) -> Vec<Customer> {
    collection(serve(table, Request::List))
}

#[test]
fn listing_an_empty_table() {
    let mut table = Table::new();
    assert_eq!(
        serve(&mut table, Request::List),
        Response { status: Status::Success, body: Body::Customers(Vec::new()) }
    );
}

#[test]
fn create_then_list_shows_exactly_one_new_customer() {
    let mut table = Table::new();
    let _ = serve(&mut table, Request::Create(new("Ann", "ann@x")));
    let before = list(&mut table);
    let created = collection(serve(&mut table, Request::Create(new("Bob", "bob@x"))));
    let after = list(&mut table);
    assert_eq!(before, vec![stored(1, "Ann", "ann@x")]);
    assert_eq!(after, vec![stored(1, "Ann", "ann@x"), stored(2, "Bob", "bob@x")]);
    assert_eq!(created, after);
    assert_eq!(after.len(), before.len() + 1);
    assert!(after.iter().all(|customer| customer.id.is_some()));
}

#[test]
fn create_ignores_the_id_in_the_body() {
    let mut table = Table::new();
    let sent = Customer { id: Some(77), name: "Ann".to_string(), email: "ann@x".to_string() };
    let created = collection(serve(&mut table, Request::Create(sent)));
    assert_eq!(created, vec![stored(1, "Ann", "ann@x")]);
}

#[test]
fn equal_payloads_make_separate_customers() {
    let mut table = Table::new();
    let _ = serve(&mut table, Request::Create(new("Ann", "ann@x")));
    let _ = serve(&mut table, Request::Create(new("Ann", "ann@x")));
    assert_eq!(list(&mut table), vec![stored(1, "Ann", "ann@x"), stored(2, "Ann", "ann@x")]);
}

#[test]
fn update_of_an_existing_id_replaces_name_and_email() {
    let mut table = Table::new();
    let _ = serve(&mut table, Request::Create(new("Ann", "ann@x")));
    let _ = serve(&mut table, Request::Create(new("Bob", "bob@x")));
    let updated = collection(serve(&mut table, Request::Update(2, new("Robert", "rob@x"))));
    assert_eq!(updated, vec![stored(1, "Ann", "ann@x"), stored(2, "Robert", "rob@x")]);
    assert_eq!(list(&mut table), updated);
}

#[test]
fn update_ignores_the_id_in_the_body() {
    let mut table = Table::new();
    let _ = serve(&mut table, Request::Create(new("Ann", "ann@x")));
    let _ = serve(&mut table, Request::Create(new("Bob", "bob@x")));
    let body = Customer { id: Some(1), name: "Robert".to_string(), email: "rob@x".to_string() };
    let updated = collection(serve(&mut table, Request::Update(2, body)));
    assert_eq!(updated, vec![stored(1, "Ann", "ann@x"), stored(2, "Robert", "rob@x")]);
}

#[test]
fn update_of_a_missing_id_succeeds_and_changes_nothing() {
    let mut table = Table::new();
    let _ = serve(&mut table, Request::Create(new("Ann", "ann@x")));
    let before = list(&mut table);
    let response = serve(&mut table, Request::Update(9, new("Zed", "zed@x")));
    assert_eq!(response.status.code(), 200);
    assert_eq!(collection(response), before);
    assert_eq!(list(&mut table), before);
}

#[test]
fn delete_of_an_existing_id_removes_that_customer_only() {
    let mut table = Table::new();
    let _ = serve(&mut table, Request::Create(new("Ann", "ann@x")));
    let _ = serve(&mut table, Request::Create(new("Bob", "bob@x")));
    let _ = serve(&mut table, Request::Create(new("Cy", "cy@x")));
    let response = serve(&mut table, Request::Delete(2));
    assert_eq!(response.status.code(), 204);
    assert_eq!(response.body, Body::Empty);
    assert_eq!(list(&mut table), vec![stored(1, "Ann", "ann@x"), stored(3, "Cy", "cy@x")]);
}

#[test]
fn delete_of_a_missing_id_is_answered_alike_and_changes_nothing() {
    let mut table = Table::new();
    let _ = serve(&mut table, Request::Create(new("Ann", "ann@x")));
    let before = list(&mut table);
    let response = serve(&mut table, Request::Delete(5));
    assert_eq!(response, Response { status: Status::NoContent, body: Body::Empty });
    assert_eq!(list(&mut table), before);
}

#[test]
fn delete_twice_is_delete_once() {
    let mut table = Table::new();
    let _ = serve(&mut table, Request::Create(new("Ann", "ann@x")));
    let _ = serve(&mut table, Request::Create(new("Bob", "bob@x")));
    let first = serve(&mut table, Request::Delete(1));
    let once = list(&mut table);
    let second = serve(&mut table, Request::Delete(1));
    assert_eq!(first, second);
    assert_eq!(list(&mut table), once);
    assert_eq!(once, vec![stored(2, "Bob", "bob@x")]);
}

#[test]
fn round_trip() {
    let mut table = Table::new();
    let _ = serve(&mut table, Request::Create(new("Old", "old@x")));
    let created = collection(serve(&mut table, Request::Create(new("Ann", "ann@x"))));
    assert_eq!(created, vec![stored(1, "Old", "old@x"), stored(2, "Ann", "ann@x")]);
    assert_eq!(list(&mut table), created);
    let updated = collection(serve(&mut table, Request::Update(2, new("Anna", "anna@x"))));
    assert_eq!(updated, vec![stored(1, "Old", "old@x"), stored(2, "Anna", "anna@x")]);
    assert_eq!(list(&mut table), updated);
    let deleted = serve(&mut table, Request::Delete(2));
    assert_eq!(deleted, Response { status: Status::NoContent, body: Body::Empty });
    assert_eq!(list(&mut table), vec![stored(1, "Old", "old@x")]);
}

#[test]
fn requests_on_different_ids_may_come_in_either_order() {
    let mut one = Table::new();
    let mut other = Table::new();
    for table in [&mut one, &mut other] {
        let _ = serve(table, Request::Create(new("Ann", "ann@x")));
        let _ = serve(table, Request::Create(new("Bob", "bob@x")));
        let _ = serve(table, Request::Create(new("Cy", "cy@x")));
    }
    let _ = serve(&mut one, Request::Update(1, new("Anna", "anna@x")));
    let _ = serve(&mut one, Request::Delete(2));
    let _ = serve(&mut one, Request::Create(new("Di", "di@x")));
    let _ = serve(&mut other, Request::Create(new("Di", "di@x")));
    let _ = serve(&mut other, Request::Delete(2));
    let _ = serve(&mut other, Request::Update(1, new("Anna", "anna@x")));
    let expected =
        vec![stored(1, "Anna", "anna@x"), stored(3, "Cy", "cy@x"), stored(4, "Di", "di@x")];
    assert_eq!(list(&mut one), expected);
    assert_eq!(list(&mut other), expected);
}

#[test]
fn created_ids_are_distinct_and_increase() {
    let mut table = Table::new();
    let mut seen: Vec<i32> = Vec::new();
    for (round, name) in ["a", "b", "c", "d", "e"].iter().enumerate() {
        let shown = collection(serve(&mut table, Request::Create(new(name, "x@x"))));
        let newest = shown.iter().filter_map(|customer| customer.id).max().unwrap();
        assert!(seen.iter().all(|earlier| *earlier < newest));
        seen.push(newest);
        if round % 2 == 0 {
            let _ = serve(&mut table, Request::Delete(newest));
        }
    }
    assert_eq!(seen, vec![1, 2, 3, 4, 5]);
}

#[test]
fn create_on_an_exhausted_table_is_an_internal_error() {
    let mut table = Table::resuming(MAX_ID).unwrap();
    let response = serve(&mut table, Request::Create(new("Ann", "ann@x")));
    assert_eq!(response.status.code(), 500);
    assert_eq!(
        response.body,
        Body::Text(
            "nextval: reached maximum value of sequence \"customers_id_seq\" (2147483647)"
                .to_string()
        )
    );
    assert_eq!(list(&mut table), Vec::<Customer>::new());
}

#[test]
fn a_customer_is_untouched_by_requests_on_other_ids() {
    let mut table = Table::new();
    let _ = serve(&mut table, Request::Create(new("Ann", "ann@x")));
    let _ = serve(&mut table, Request::Create(new("Bob", "bob@x")));
    let _ = serve(&mut table, Request::Delete(1));
    let _ = serve(&mut table, Request::Create(new("Cy", "cy@x")));
    let _ = serve(&mut table, Request::Update(3, new("Cyrus", "cyrus@x")));
    let _ = serve(&mut table, Request::Update(1, new("Ghost", "ghost@x")));
    let _ = serve(&mut table, Request::Delete(3));
    let _ = serve(&mut table, Request::Delete(7));
    assert_eq!(list(&mut table), vec![stored(2, "Bob", "bob@x")]);
}
