//! What each request asks of the database, and what each answer of the
//! database becomes for the client.
//!
//! A request is handled in at most two statements. [`begin`] names the first
//! step; whoever talks to the database performs it and reports the outcome
//! to [`after_execute`] or [`after_query`], which name the next step, until
//! the step is a response.

use vstd::prelude::*;
use crate::customer::{customers_from_records, customers_of, Customer, CustomerView, Record};
use crate::statement::{Command, CommandView, Query};

verus! {

/// One of the four operations on the customer collection.
#[derive(Debug, Clone, PartialEq, Eq)]
pub enum Request {
    /// Add a customer. An id in the given customer is ignored.
    Create(Customer),
    /// Read the whole collection.
    List,
    /// Replace name and email of the customer with the given id. An id in
    /// the given customer is ignored.
    Update(i32, Customer),
    /// Remove the customer with the given id.
    Delete(i32),
}

/// Mathematical value of a [`Request`].
pub ghost enum RequestView {
    Create(CustomerView),
    List,
    Update(int, CustomerView),
    Delete(int),
}

impl View for Request {
    type V = RequestView;

    open spec fn view(&self) -> RequestView {
        match self {
            Request::Create(customer) => RequestView::Create(customer@),
            Request::List => RequestView::List,
            Request::Update(id, customer) => RequestView::Update(*id as int, customer@),
            Request::Delete(id) => RequestView::Delete(*id as int),
        }
    }
}

/// The three statuses a response can carry.
#[derive(Debug, Clone, Copy, PartialEq, Eq, Structural)]
pub enum Status {
    Success,
    NoContent,
    InternalServerError,
}

impl Status {
    /// The status as an HTTP status code.
    pub open spec fn spec_code(self) -> int {
        match self {
            Status::Success => 200,
            Status::NoContent => 204,
            Status::InternalServerError => 500,
        }
    }

    /// The status as an HTTP status code.
    pub fn code(&self) -> (code: u16)
        ensures
            code == self.spec_code(),
    {
        match self {
            Status::Success => 200,
            Status::NoContent => 204,
            Status::InternalServerError => 500,
        }
    }
}

/// What a response carries besides its status.
#[derive(Debug, Clone, PartialEq, Eq)]
pub enum Body {
    /// The whole collection, to be sent as a JSON array.
    Customers(Vec<Customer>),
    /// A plain message: the text of a database error.
    Text(String),
    /// Nothing.
    Empty,
}

/// Mathematical value of a [`Body`].
pub ghost enum BodyView {
    Customers(Seq<CustomerView>),
    Text(Seq<char>),
    Empty,
}

impl View for Body {
    type V = BodyView;

    open spec fn view(&self) -> BodyView {
        match self {
            Body::Customers(customers) => BodyView::Customers(customers.deep_view()),
            Body::Text(text) => BodyView::Text(text@),
            Body::Empty => BodyView::Empty,
        }
    }
}

/// The answer to a request.
#[derive(Debug, Clone, PartialEq, Eq)]
pub struct Response {
    pub status: Status,
    pub body: Body,
}

/// Mathematical value of a [`Response`].
pub ghost struct ResponseView {
    pub status: Status,
    pub body: BodyView,
}

impl ResponseView {
    /// Status 200 with the collection as read from the database.
    pub open spec fn collection(customers: Seq<CustomerView>) -> ResponseView {
        ResponseView { status: Status::Success, body: BodyView::Customers(customers) }
    }

    /// Status 204 with nothing in the body.
    pub open spec fn no_content() -> ResponseView {
        ResponseView { status: Status::NoContent, body: BodyView::Empty }
    }

    /// Status 500 with the database's error text as the body.
    pub open spec fn internal_error(text: Seq<char>) -> ResponseView {
        ResponseView { status: Status::InternalServerError, body: BodyView::Text(text) }
    }
}

impl View for Response {
    type V = ResponseView;

    open spec fn view(&self) -> ResponseView {
        ResponseView { status: self.status, body: self.body@ }
    }
}

impl Response {
    /// The response that carries the whole collection.
    pub fn collection(customers: Vec<Customer>) -> (response: Response)
        ensures
            response@ == ResponseView::collection(customers.deep_view()),
    {
        Response { status: Status::Success, body: Body::Customers(customers) }
    }

    /// The response to a removal that the database carried out.
    pub fn no_content() -> (response: Response)
        ensures
            response@ == ResponseView::no_content(),
    {
        Response { status: Status::NoContent, body: Body::Empty }
    }

    /// The response to a request on which the database failed: the
    /// database's own words, unchanged.
    pub fn internal_error(text: String) -> (response: Response)
        ensures
            response@ == ResponseView::internal_error(text@),
    {
        Response { status: Status::InternalServerError, body: Body::Text(text) }
    }
}

/// What remains to be done once a command has succeeded.
#[derive(Debug, Clone, Copy, PartialEq, Eq, Structural)]
pub enum Pending {
    /// Read the whole collection and answer with it.
    Listing,
    /// Answer at once, with an empty body.
    Nothing,
}

/// The next step in handling a request.
#[derive(Debug, Clone, PartialEq, Eq)]
pub enum Action {
    /// Run the command, then report to [`after_execute`] with `then`.
    Execute { command: Command, then: Pending },
    /// Run the query, then report to [`after_query`].
    Query(Query),
    /// Send the response: the request is handled.
    Respond(Response),
}

/// Mathematical value of an [`Action`].
pub ghost enum ActionView {
    Execute { command: CommandView, then: Pending },
    Query(Query),
    Respond(ResponseView),
}

impl View for Action {
    type V = ActionView;

    open spec fn view(&self) -> ActionView {
        match self {
            Action::Execute { command, then } => ActionView::Execute {
                command: command@,
                then: *then,
            },
            Action::Query(query) => ActionView::Query(*query),
            Action::Respond(response) => ActionView::Respond(response@),
        }
    }
}

/// The first step for each request.
pub open spec fn first_step(request: RequestView) -> ActionView {
    match request {
        RequestView::Create(customer) => ActionView::Execute {
            command: CommandView::Insert { name: customer.name, email: customer.email },
            then: Pending::Listing,
        },
        RequestView::List => ActionView::Query(Query::AllCustomers),
        RequestView::Update(id, customer) => ActionView::Execute {
            command: CommandView::Update { id, name: customer.name, email: customer.email },
            then: Pending::Listing,
        },
        RequestView::Delete(id) => ActionView::Execute {
            command: CommandView::Delete { id },
            then: Pending::Nothing,
        },
    }
}

/// The step that follows a command which succeeded.
pub open spec fn step_after_success(then: Pending) -> ActionView {
    match then {
        Pending::Listing => ActionView::Query(Query::AllCustomers),
        Pending::Nothing => ActionView::Respond(ResponseView::no_content()),
    }
}

/// Names the first step for a request: one command for a creation, an
/// update or a removal, the query for a listing.
pub fn begin(request: Request) -> (action: Action)
    ensures
        action@ == first_step(request@),
{
    match request {
        Request::Create(customer) => Action::Execute {
            command: Command::Insert { name: customer.name, email: customer.email },
            then: Pending::Listing,
        },
        Request::List => Action::Query(Query::AllCustomers),
        Request::Update(id, customer) => Action::Execute {
            command: Command::Update { id, name: customer.name, email: customer.email },
            then: Pending::Listing,
        },
        Request::Delete(id) => Action::Execute {
            command: Command::Delete { id },
            then: Pending::Nothing,
        },
    }
}

/// Names the step that follows a command. A failure is answered with the
/// database's error text; a success leads to what was pending, however many
/// rows the command touched, none included.
pub fn after_execute(then: Pending, outcome: Result<u64, String>) -> (action: Action)
    ensures
        outcome is Ok ==> action@ == step_after_success(then),
        outcome matches Err(text) ==> action@ == ActionView::Respond(
            ResponseView::internal_error(text@),
        ),
{
    match outcome {
        Ok(_) => match then {
            Pending::Listing => Action::Query(Query::AllCustomers),
            Pending::Nothing => Action::Respond(Response::no_content()),
        },
        Err(text) => Action::Respond(Response::internal_error(text)),
    }
}

/// Names the step that follows the query, which is always a response: the
/// rows read back as customers in the order given, or the database's error
/// text.
pub fn after_query(outcome: Result<Vec<Record>, String>) -> (action: Action)
    ensures
        outcome matches Ok(records) ==> action@ == ActionView::Respond(
            ResponseView::collection(customers_of(records.deep_view())),
        ),
        outcome matches Err(text) ==> action@ == ActionView::Respond(
            ResponseView::internal_error(text@),
        ),
{
    match outcome {
        Ok(records) => Action::Respond(Response::collection(customers_from_records(records))),
        Err(text) => Action::Respond(Response::internal_error(text)),
    }
}

} // verus!
