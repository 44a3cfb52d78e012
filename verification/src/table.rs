//! The customers table held in memory. It carries out the statements as
//! the model says, and so shows what to expect of the database.

use vstd::prelude::*;
use crate::customer::{Details, Record, RecordView};
use crate::model::{lists, TableView, MAX_ID};
use crate::statement::{Command, CommandView, Query};

verus! {

/// The message with which an insertion fails once every id is assigned.
pub open spec fn sequence_exhausted_text() -> Seq<char> {
    "nextval: reached maximum value of sequence \"customers_id_seq\" (2147483647)"@
}

/// The table in memory: its rows in the order of their creation, and the
/// last id assigned.
#[derive(Debug)]
pub struct Table {
    records: Vec<Record>,
    last_id: i32,
}

spec fn holds(records: Seq<RecordView>, id: int) -> bool {
    exists|i: int| 0 <= i < records.len() && (#[trigger] records[i]).id == id
}

spec fn place(records: Seq<RecordView>, id: int) -> int {
    choose|i: int| 0 <= i < records.len() && (#[trigger] records[i]).id == id
}

spec fn distinct_ids(records: Seq<RecordView>) -> bool {
    forall|i: int, j: int|
        0 <= i < j < records.len() ==> (#[trigger] records[i]).id != (#[trigger] records[j]).id
}

spec fn rows_of(records: Seq<RecordView>) -> Map<int, Details> {
    Map::new(|id: int| holds(records, id), |id: int| records[place(records, id)].details())
}

proof fn lemma_rows_listed(records: Seq<RecordView>)
    requires
        distinct_ids(records),
    ensures
        lists(records, rows_of(records)),
{
    let rows = rows_of(records);
    assert forall|i: int| 0 <= i < records.len() implies rows.contains_key(
        (#[trigger] records[i]).id,
    ) && rows[records[i].id] == records[i].details() by {
        let p = place(records, records[i].id);
        assert(records[p].id == records[i].id);
    }
}

proof fn lemma_listing_determines_rows(
    records: Seq<RecordView>,
    first: Map<int, Details>,
    second: Map<int, Details>,
)
    requires
        lists(records, first),
        lists(records, second),
    ensures
        first == second,
{
    assert(first =~= second);
}

impl View for Table {
    type V = TableView;

    closed spec fn view(&self) -> TableView {
        TableView { rows: rows_of(self.records.deep_view()), next_id: self.last_id + 1 }
    }
}

impl Table {
    /// The invariant of the representation: no id is stored twice, and every
    /// stored id was assigned.
    pub closed spec fn inv(&self) -> bool {
        &&& distinct_ids(self.records.deep_view())
        &&& 0 <= self.last_id
        &&& forall|i: int|
            0 <= i < self.records.len() ==> 1 <= (#[trigger] self.records[i]).id <= self.last_id
    }

    /// What every table in memory that this module hands out satisfies: its
    /// representation is sound, and it stands for a well-formed table.
    pub open spec fn wf(&self) -> bool {
        self.inv() && self@.wf()
    }

    /// The table as it is created: without rows, first id 1.
    pub fn new() -> (table: Table)
        ensures
            table.wf(),
            table@ == TableView::empty(),
    {
        let table = Table { records: Vec::new(), last_id: 0 };
        assert(table@.rows =~= Map::empty());
        table
    }

    /// A table without rows whose ids continue after `last_id`, as a table
    /// is once every row created so far has been removed. There is none for
    /// a negative `last_id`.
    pub fn resuming(last_id: i32) -> (table: Option<Table>)
        ensures
            last_id < 0 ==> table is None,
            last_id >= 0 ==> (table matches Some(table) && table.wf() && table@ == TableView {
                rows: Map::empty(),
                next_id: last_id + 1,
            }),
    {
        if last_id < 0 {
            None
        } else {
            let table = Table { records: Vec::new(), last_id };
            assert(table@.rows =~= Map::empty());
            Some(table)
        }
    }

    fn position(&self, id: i32) -> (found: Option<usize>)
        requires
            self.wf(),
        ensures
            found matches Some(i) ==> i < self.records.len() && self.records[i as int].id == id,
            found is None ==> !self@.rows.contains_key(id as int),
            found is Some ==> self@.rows.contains_key(id as int),
    {
        let mut i: usize = 0;
        while i < self.records.len()
            invariant
                i <= self.records.len(),
                forall|j: int| 0 <= j < i ==> (#[trigger] self.records[j]).id != id,
            decreases self.records.len() - i,
        {
            if self.records[i].id == id {
                proof {
                    assert(self.records.deep_view()[i as int].id == id);
                }
                return Some(i);
            }
            i += 1;
        }
        None
    }

    fn insert(&mut self, name: String, email: String) -> (outcome: Result<u64, String>)
        requires
            old(self).wf(),
        ensures
            final(self).wf(),
            final(self)@ == old(self)@.apply(CommandView::Insert { name: name@, email: email@ }),
            !old(self)@.exhausted() ==> outcome == Ok::<u64, String>(1),
            old(self)@.exhausted() ==> (outcome matches Err(text) && text@
                == sequence_exhausted_text()),
    {
        if self.last_id == MAX_ID {
            return Err(
                "nextval: reached maximum value of sequence \"customers_id_seq\" (2147483647)".to_owned(),
            );
        }
        let id: i32 = self.last_id + 1;
        let ghost before = self.records.deep_view();
        let ghost rows = self@.rows;
        let ghost added = RecordView { id: id as int, name: name@, email: email@ };
        proof {
            lemma_rows_listed(before);
        }
        self.records.push(Record { id, name, email });
        self.last_id = id;
        proof {
            let after = self.records.deep_view();
            assert(after =~= before.push(added));
            let expected = rows.insert(id as int, added.details());
            assert(lists(after, expected)) by {
                assert forall|i: int| 0 <= i < after.len() implies expected.contains_key(
                    (#[trigger] after[i]).id,
                ) && expected[after[i].id] == after[i].details() by {
                    if i < before.len() {
                        assert(after[i] == before[i]);
                    }
                }
                assert forall|key: int| #[trigger] expected.contains_key(key) implies exists|i: int|
                    0 <= i < after.len() && (#[trigger] after[i]).id == key by {
                    if key == id {
                        assert(after[before.len() as int].id == key);
                    } else {
                        let i = choose|i: int|
                            0 <= i < before.len() && (#[trigger] before[i]).id == key;
                        assert(after[i].id == key);
                    }
                }
            }
            lemma_rows_listed(after);
            lemma_listing_determines_rows(after, rows_of(after), expected);
        }
        Ok(1)
    }

    fn update(&mut self, id: i32, name: String, email: String) -> (affected: u64)
        requires
            old(self).wf(),
        ensures
            final(self).wf(),
            final(self)@ == old(self)@.apply(
                CommandView::Update { id: id as int, name: name@, email: email@ },
            ),
            affected == old(self)@.affected(
                CommandView::Update { id: id as int, name: name@, email: email@ },
            ),
    {
        match self.position(id) {
            None => 0,
            Some(at) => {
                let ghost before = self.records.deep_view();
                let ghost rows = self@.rows;
                let ghost changed = RecordView { id: id as int, name: name@, email: email@ };
                proof {
                    lemma_rows_listed(before);
                }
                self.records.set(at, Record { id, name, email });
                proof {
                    let after = self.records.deep_view();
                    let expected = rows.insert(id as int, changed.details());
                    assert(distinct_ids(after)) by {
                        assert forall|i: int, j: int| 0 <= i < j < after.len() implies (
                        #[trigger] after[i]).id != (#[trigger] after[j]).id by {
                            assert(before[i].id != before[j].id);
                        }
                    }
                    assert(lists(after, expected)) by {
                        assert forall|i: int| 0 <= i < after.len() implies expected.contains_key(
                            (#[trigger] after[i]).id,
                        ) && expected[after[i].id] == after[i].details() by {
                            if i != at {
                                if i < at {
                                    assert(before[i].id != before[at as int].id);
                                } else {
                                    assert(before[at as int].id != before[i].id);
                                }
                            }
                        }
                        assert forall|key: int| #[trigger]
                            expected.contains_key(key) implies exists|i: int|
                            0 <= i < after.len() && (#[trigger] after[i]).id == key by {
                            if key == id {
                                assert(after[at as int].id == key);
                            } else {
                                let i = choose|i: int|
                                    0 <= i < before.len() && (#[trigger] before[i]).id == key;
                                assert(after[i].id == key);
                            }
                        }
                    }
                    lemma_rows_listed(after);
                    lemma_listing_determines_rows(after, rows_of(after), expected);
                    assert forall|i: int| 0 <= i < self.records.len() implies 1 <= (
                    #[trigger] self.records[i]).id <= self.last_id by {
                        if i != at {
                            assert(self.records[i] == old(self).records[i]);
                        }
                    }
                }
                1
            },
        }
    }

    fn delete(&mut self, id: i32) -> (affected: u64)
        requires
            old(self).wf(),
        ensures
            final(self).wf(),
            final(self)@ == old(self)@.apply(CommandView::Delete { id: id as int }),
            affected == old(self)@.affected(CommandView::Delete { id: id as int }),
    {
        match self.position(id) {
            None => {
                assert(self@.rows.remove(id as int) =~= self@.rows);
                0
            },
            Some(at) => {
                let ghost before = self.records.deep_view();
                let ghost rows = self@.rows;
                proof {
                    lemma_rows_listed(before);
                }
                self.records.remove(at);
                proof {
                    let after = self.records.deep_view();
                    let expected = rows.remove(id as int);
                    assert(distinct_ids(after)) by {
                        assert forall|i: int, j: int| 0 <= i < j < after.len() implies (
                        #[trigger] after[i]).id != (#[trigger] after[j]).id by {
                            let from_i = if i < at { i } else { i + 1 };
                            let from_j = if j < at { j } else { j + 1 };
                            assert(before[from_i].id != before[from_j].id);
                        }
                    }
                    assert(lists(after, expected)) by {
                        assert forall|i: int| 0 <= i < after.len() implies expected.contains_key(
                            (#[trigger] after[i]).id,
                        ) && expected[after[i].id] == after[i].details() by {
                            let from = if i < at { i } else { i + 1 };
                            if from < at {
                                assert(before[from].id != before[at as int].id);
                            } else {
                                assert(before[at as int].id != before[from].id);
                            }
                        }
                        assert forall|key: int| #[trigger]
                            expected.contains_key(key) implies exists|i: int|
                            0 <= i < after.len() && (#[trigger] after[i]).id == key by {
                            let from = choose|i: int|
                                0 <= i < before.len() && (#[trigger] before[i]).id == key;
                            let to = if from < at { from } else { from - 1 };
                            assert(after[to].id == key);
                        }
                    }
                    lemma_rows_listed(after);
                    lemma_listing_determines_rows(after, rows_of(after), expected);
                    assert forall|i: int| 0 <= i < self.records.len() implies 1 <= (
                    #[trigger] self.records[i]).id <= self.last_id by {
                        let from = if i < at { i } else { i + 1 };
                        assert(self.records[i] == old(self).records[from]);
                    }
                }
                1
            },
        }
    }

    /// Carries out a command and reports how many rows it touched. The only
    /// failure is an insertion when every id has been assigned; the table is
    /// then left as it was.
    pub fn execute(&mut self, command: Command) -> (outcome: Result<u64, String>)
        requires
            old(self).wf(),
        ensures
            final(self).wf(),
            final(self)@ == old(self)@.apply(command@),
            old(self)@.accepts(command@) ==> (outcome matches Ok(affected) && affected == old(
                self,
            )@.affected(command@)),
            !old(self)@.accepts(command@) ==> (outcome matches Err(text) && text@
                == sequence_exhausted_text()),
    {
        match command {
            Command::CreateTable => Ok(0),
            Command::Insert { name, email } => self.insert(name, email),
            Command::Update { id, name, email } => Ok(self.update(id, name, email)),
            Command::Delete { id } => Ok(self.delete(id)),
        }
    }

    /// Reads the rows that a query asks for: all of them.
    pub fn query(&self, query: Query) -> (records: Vec<Record>)
        requires
            self.wf(),
        ensures
            lists(records.deep_view(), self@.rows),
    {
        let mut records: Vec<Record> = Vec::new();
        let mut i: usize = 0;
        while i < self.records.len()
            invariant
                i <= self.records.len(),
                records.len() == i,
                forall|j: int| 0 <= j < i ==> (#[trigger] records[j])@ == self.records[j]@,
            decreases self.records.len() - i,
        {
            let stored = &self.records[i];
            records.push(
                Record { id: stored.id, name: stored.name.clone(), email: stored.email.clone() },
            );
            i += 1;
        }
        proof {
            assert(records.deep_view() =~= self.records.deep_view());
            lemma_rows_listed(self.records.deep_view());
        }
        records
    }
}

} // verus!
