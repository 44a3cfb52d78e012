//! The customer record, as clients send it and as the table stores it.

use vstd::prelude::*;

verus! {

/// What a client supplies for a customer and the table keeps beside the id.
pub ghost struct Details {
    pub name: Seq<char>,
    pub email: Seq<char>,
}

/// A customer as exchanged with clients. The id is absent in what a client
/// sends for creation and present in everything read back.
#[derive(Debug, Clone, PartialEq, Eq)]
pub struct Customer {
    pub id: Option<i32>,
    pub name: String,
    pub email: String,
}

/// Mathematical value of a [`Customer`].
pub ghost struct CustomerView {
    pub id: Option<int>,
    pub name: Seq<char>,
    pub email: Seq<char>,
}

impl CustomerView {
    /// The part of a customer that the client chooses.
    pub open spec fn details(self) -> Details {
        Details { name: self.name, email: self.email }
    }
}

impl View for Customer {
    type V = CustomerView;

    open spec fn view(&self) -> CustomerView {
        CustomerView {
            id: match self.id {
                Some(id) => Some(id as int),
                None => None,
            },
            name: self.name@,
            email: self.email@,
        }
    }
}

impl DeepView for Customer {
    type V = CustomerView;

    open spec fn deep_view(&self) -> CustomerView {
        self@
    }
}

/// One stored row: the id the table assigned, and the customer's details.
#[derive(Debug, Clone, PartialEq, Eq)]
pub struct Record {
    pub id: i32,
    pub name: String,
    pub email: String,
}

/// Mathematical value of a [`Record`].
pub ghost struct RecordView {
    pub id: int,
    pub name: Seq<char>,
    pub email: Seq<char>,
}

impl RecordView {
    /// The part of a row that the client chose.
    pub open spec fn details(self) -> Details {
        Details { name: self.name, email: self.email }
    }

    /// The customer that a row is read back as: same details, id present.
    pub open spec fn customer(self) -> CustomerView {
        CustomerView { id: Some(self.id), name: self.name, email: self.email }
    }
}

impl View for Record {
    type V = RecordView;

    open spec fn view(&self) -> RecordView {
        RecordView { id: self.id as int, name: self.name@, email: self.email@ }
    }
}

impl DeepView for Record {
    type V = RecordView;

    open spec fn deep_view(&self) -> RecordView {
        self@
    }
}

/// The customers that a sequence of rows is read back as, in the same order.
pub open spec fn customers_of(records: Seq<RecordView>) -> Seq<CustomerView> {
    records.map_values(|r: RecordView| r.customer())
}

impl Customer {
    /// Reads a stored row back as a customer, with its id present.
    pub fn from_record(record: Record) -> (customer: Customer)
        ensures
            customer@ == record@.customer(),
    {
        Customer { id: Some(record.id), name: record.name, email: record.email }
    }
}

/// Reads stored rows back as customers, keeping their order.
pub fn customers_from_records(records: Vec<Record>) -> (customers: Vec<Customer>)
    ensures
        customers.deep_view() == customers_of(records.deep_view()),
{
    let ghost all = records@;
    let mut customers: Vec<Customer> = Vec::new();
    for record in it: records
        invariant
            it.seq() == all,
            customers@.len() == it.index(),
            forall|i: int|
                0 <= i < customers@.len() ==> (#[trigger] customers@[i])@ == all[i]@.customer(),
    {
        customers.push(Customer::from_record(record));
    }
    customers
}

} // verus!
