//! The customers table as a mathematical value: which rows it holds, which
//! id it assigns next, and what each statement does to it.

use vstd::prelude::*;
use crate::customer::{Details, RecordView};
use crate::statement::CommandView;

verus! {

/// The largest id the table can assign.
pub const MAX_ID: i32 = 2147483647;

/// The table's contents: its rows by id, and the id that the next insertion
/// receives.
pub ghost struct TableView {
    pub rows: Map<int, Details>,
    pub next_id: int,
}

impl TableView {
    /// What holds of every table: it has finitely many rows, ids start at 1,
    /// and every id in use was assigned before `next_id`.
    pub open spec fn wf(self) -> bool {
        &&& self.rows.dom().finite()
        &&& 1 <= self.next_id <= MAX_ID + 1
        &&& forall|id: int| self.rows.contains_key(id) ==> 1 <= id < self.next_id
    }

    /// The table as it is created: no rows, first id 1.
    pub open spec fn empty() -> TableView {
        TableView { rows: Map::empty(), next_id: 1 }
    }

    /// Whether every id has been assigned, so that no row can be added.
    pub open spec fn exhausted(self) -> bool {
        self.next_id > MAX_ID
    }

    /// Whether the table carries the command out. Only an insertion into an
    /// exhausted table fails.
    pub open spec fn accepts(self, command: CommandView) -> bool {
        !(command is Insert && self.exhausted())
    }

    /// The table after the command. A command that fails, an update or a
    /// removal of an id that no row has, and the creation of the table leave
    /// it as it was.
    pub open spec fn apply(self, command: CommandView) -> TableView {
        match command {
            CommandView::CreateTable => self,
            CommandView::Insert { name, email } => if self.exhausted() {
                self
            } else {
                TableView {
                    rows: self.rows.insert(self.next_id, Details { name, email }),
                    next_id: self.next_id + 1,
                }
            },
            CommandView::Update { id, name, email } => if self.rows.contains_key(id) {
                TableView { rows: self.rows.insert(id, Details { name, email }), ..self }
            } else {
                self
            },
            CommandView::Delete { id } => TableView { rows: self.rows.remove(id), ..self },
        }
    }

    /// The number of rows that a command which is carried out touches.
    pub open spec fn affected(self, command: CommandView) -> int {
        match command {
            CommandView::CreateTable => 0,
            CommandView::Insert { .. } => 1,
            CommandView::Update { id, .. } => if self.rows.contains_key(id) {
                1
            } else {
                0
            },
            CommandView::Delete { id } => if self.rows.contains_key(id) {
                1
            } else {
                0
            },
        }
    }

    /// The id of the row that the command creates, changes or removes, if
    /// there can be one.
    pub open spec fn target(self, command: CommandView) -> Option<int> {
        match command {
            CommandView::CreateTable => None,
            CommandView::Insert { .. } => Some(self.next_id),
            CommandView::Update { id, .. } => Some(id),
            CommandView::Delete { id } => Some(id),
        }
    }

    /// The table after a sequence of commands, carried out one after another.
    pub open spec fn apply_all(self, commands: Seq<CommandView>) -> TableView
        decreases commands.len(),
    {
        if commands.len() == 0 {
            self
        } else {
            self.apply_all(commands.drop_last()).apply(commands.last())
        }
    }
}

/// Whether `records` is what reading the whole table may return: every
/// record is a row, no id comes twice, and every row is among the records.
/// Nothing is said of the order.
pub open spec fn lists(records: Seq<RecordView>, rows: Map<int, Details>) -> bool {
    &&& forall|i: int|
        0 <= i < records.len() ==> rows.contains_key((#[trigger] records[i]).id) && rows[records[i].id]
            == records[i].details()
    &&& forall|i: int, j: int|
        0 <= i < j < records.len() ==> (#[trigger] records[i]).id != (#[trigger] records[j]).id
    &&& forall|id: int| #[trigger]
        rows.contains_key(id) ==> exists|i: int|
            0 <= i < records.len() && (#[trigger] records[i]).id == id
}

/// A table keeps its invariant under every command.
pub proof fn lemma_apply_preserves_wf(table: TableView, command: CommandView)
    requires
        table.wf(),
    ensures
        table.apply(command).wf(),
{
}

/// A listing has exactly as many records as the table has rows.
pub proof fn lemma_listing_counts_rows(records: Seq<RecordView>, rows: Map<int, Details>)
    requires
        lists(records, rows),
    ensures
        rows.dom().finite(),
        rows.dom().len() == records.len(),
{
    let ids = records.map_values(|r: RecordView| r.id);
    assert(ids.no_duplicates());
    assert(ids.to_set() =~= rows.dom()) by {
        assert forall|id: int| rows.contains_key(id) implies ids.to_set().contains(id) by {
            let i = choose|i: int| 0 <= i < records.len() && (#[trigger] records[i]).id == id;
            assert(ids[i] == id);
        }
    }
    ids.unique_seq_to_set();
    vstd::seq_lib::seq_to_set_is_finite(ids);
}

} // verus!
