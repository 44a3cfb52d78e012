use customer_api::customer::{customers_from_records, Customer, Record};
use customer_api::statement::{Command, Param, Query};

#[test]
fn create_table_text_and_params() {
    let command = Command::CreateTable;
    assert_eq!(
        command.sql(),
        "CREATE TABLE IF NOT EXISTS customers (id SERIAL PRIMARY KEY, name TEXT NOT NULL, email TEXT NOT NULL)"
    );
    assert_eq!(command.params(), Vec::<Param>::new());
}

#[test]
fn insert_text_and_params() {
    let command = Command::Insert { name: "Ann".to_string(), email: "ann@example.com".to_string() };
    assert_eq!(command.sql(), "INSERT INTO customers (name, email) VALUES ($1, $2)");
    assert_eq!(
        command.params(),
        vec![Param::Text("Ann".to_string()), Param::Text("ann@example.com".to_string())]
    );
}

#[test]
fn update_text_and_params() {
    let command =
        Command::Update { id: 7, name: "Bob".to_string(), email: "bob@example.com".to_string() };
    assert_eq!(command.sql(), "UPDATE customers SET name = $1, email = $2 WHERE id = $3");
    assert_eq!(
        command.params(),
        vec![
            Param::Text("Bob".to_string()),
            Param::Text("bob@example.com".to_string()),
            Param::Int(7)
        ]
    );
}

#[test]
fn delete_text_and_params() {
    let command = Command::Delete { id: -3 };
    assert_eq!(command.sql(), "DELETE FROM customers WHERE id = $1");
    assert_eq!(command.params(), vec![Param::Int(-3)]);
}

#[test]
fn params_leave_the_command_as_it_was() {
    let command = Command::Insert { name: "Ann".to_string(), email: "a@x".to_string() };
    let _ = command.params();
    assert_eq!(command, Command::Insert { name: "Ann".to_string(), email: "a@x".to_string() });
}

#[test]
fn query_text() {
    assert_eq!(Query::AllCustomers.sql(), "SELECT id, name, email FROM customers");
}

#[test]
fn record_read_back_has_its_id() {
    let record = Record { id: 5, name: "Ann".to_string(), email: "ann@example.com".to_string() };
    assert_eq!(
        Customer::from_record(record),
        Customer { id: Some(5), name: "Ann".to_string(), email: "ann@example.com".to_string() }
    );
}

#[test]
fn records_read_back_keep_their_order() {
    let records = vec![
        Record { id: 9, name: "Zed".to_string(), email: "z@x".to_string() },
        Record { id: 2, name: "Ann".to_string(), email: "a@x".to_string() },
        Record { id: 4, name: "".to_string(), email: "".to_string() },
    ];
    assert_eq!(
        customers_from_records(records),
        vec![
            Customer { id: Some(9), name: "Zed".to_string(), email: "z@x".to_string() },
            Customer { id: Some(2), name: "Ann".to_string(), email: "a@x".to_string() },
            Customer { id: Some(4), name: "".to_string(), email: "".to_string() },
        ]
    );
}

#[test]
fn no_records_read_back_as_no_customers() {
    assert_eq!(customers_from_records(Vec::new()), Vec::<Customer>::new());
}
