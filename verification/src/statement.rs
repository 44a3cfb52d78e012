//! The statements sent to the database: their text and their parameters.

use vstd::prelude::*;

verus! {

/// A value bound to a numbered placeholder of a statement.
#[derive(Debug, Clone, PartialEq, Eq)]
pub enum Param {
    Text(String),
    Int(i32),
}

/// Mathematical value of a [`Param`].
pub ghost enum ParamView {
    Text(Seq<char>),
    Int(int),
}

impl View for Param {
    type V = ParamView;

    open spec fn view(&self) -> ParamView {
        match self {
            Param::Text(text) => ParamView::Text(text@),
            Param::Int(number) => ParamView::Int(*number as int),
        }
    }
}

impl DeepView for Param {
    type V = ParamView;

    open spec fn deep_view(&self) -> ParamView {
        self@
    }
}

/// A statement that changes the database and reports how many rows it
/// touched.
#[derive(Debug, Clone, PartialEq, Eq)]
pub enum Command {
    /// Creates the customers table unless it is there already.
    CreateTable,
    /// Adds a row; the table assigns its id.
    Insert { name: String, email: String },
    /// Replaces name and email of the row with this id, if there is one.
    Update { id: i32, name: String, email: String },
    /// Removes the row with this id, if there is one.
    Delete { id: i32 },
}

/// Mathematical value of a [`Command`].
pub ghost enum CommandView {
    CreateTable,
    Insert { name: Seq<char>, email: Seq<char> },
    Update { id: int, name: Seq<char>, email: Seq<char> },
    Delete { id: int },
}

impl CommandView {
    /// The statement's text, with `$1`, `$2`, ... where parameters go.
    pub open spec fn sql(self) -> Seq<char> {
        match self {
            CommandView::CreateTable =>
                "CREATE TABLE IF NOT EXISTS customers (id SERIAL PRIMARY KEY, name TEXT NOT NULL, email TEXT NOT NULL)"@,
            CommandView::Insert { .. } => "INSERT INTO customers (name, email) VALUES ($1, $2)"@,
            CommandView::Update { .. } =>
                "UPDATE customers SET name = $1, email = $2 WHERE id = $3"@,
            CommandView::Delete { .. } => "DELETE FROM customers WHERE id = $1"@,
        }
    }

    /// The values bound to the placeholders, `$1` first.
    pub open spec fn params(self) -> Seq<ParamView> {
        match self {
            CommandView::CreateTable => seq![],
            CommandView::Insert { name, email } => seq![
                ParamView::Text(name),
                ParamView::Text(email),
            ],
            CommandView::Update { id, name, email } => seq![
                ParamView::Text(name),
                ParamView::Text(email),
                ParamView::Int(id),
            ],
            CommandView::Delete { id } => seq![ParamView::Int(id)],
        }
    }
}

impl View for Command {
    type V = CommandView;

    open spec fn view(&self) -> CommandView {
        match self {
            Command::CreateTable => CommandView::CreateTable,
            Command::Insert { name, email } => CommandView::Insert { name: name@, email: email@ },
            Command::Update { id, name, email } => CommandView::Update {
                id: *id as int,
                name: name@,
                email: email@,
            },
            Command::Delete { id } => CommandView::Delete { id: *id as int },
        }
    }
}

impl Command {
    /// The text to send for this command.
    pub fn sql(&self) -> (text: &'static str)
        ensures
            text@ == self@.sql(),
    {
        match self {
            Command::CreateTable =>
                "CREATE TABLE IF NOT EXISTS customers (id SERIAL PRIMARY KEY, name TEXT NOT NULL, email TEXT NOT NULL)",
            Command::Insert { .. } => "INSERT INTO customers (name, email) VALUES ($1, $2)",
            Command::Update { .. } => "UPDATE customers SET name = $1, email = $2 WHERE id = $3",
            Command::Delete { .. } => "DELETE FROM customers WHERE id = $1",
        }
    }

    /// The values to bind to the command's placeholders, in order.
    pub fn params(&self) -> (params: Vec<Param>)
        ensures
            params.deep_view() == self@.params(),
    {
        let mut params: Vec<Param> = Vec::new();
        match self {
            Command::CreateTable => {},
            Command::Insert { name, email } => {
                params.push(Param::Text(name.clone()));
                params.push(Param::Text(email.clone()));
            },
            Command::Update { id, name, email } => {
                params.push(Param::Text(name.clone()));
                params.push(Param::Text(email.clone()));
                params.push(Param::Int(*id));
            },
            Command::Delete { id } => {
                params.push(Param::Int(*id));
            },
        }
        params
    }
}

/// A statement that reads rows and changes nothing.
#[derive(Debug, Clone, Copy, PartialEq, Eq, Structural)]
pub enum Query {
    /// Every row of the customers table, in whatever order the database
    /// returns them.
    AllCustomers,
}

impl Query {
    /// The query's text; it takes no parameters.
    pub open spec fn sql_text(self) -> Seq<char> {
        "SELECT id, name, email FROM customers"@
    }

    /// The text to send for this query.
    pub fn sql(&self) -> (text: &'static str)
        ensures
            text@ == self.sql_text(),
    {
        "SELECT id, name, email FROM customers"
    }
}

} // verus!
