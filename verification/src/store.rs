//! The table that pairs each published message with its board entry.

use vstd::prelude::*;
use crate::decimal::{decimal, lemma_render_then_parse, parse_u64, parsed, render_u64};

verus! {

/// One row: the message `reference_id` is shown on the board as the entry
/// `counter_id`.
#[derive(Clone, Copy, Debug, PartialEq, Eq, Structural)]
pub struct BoardMapping {
    /// The row's own number.
    pub id: u64,
    /// The source message.
    pub reference_id: u64,
    /// The board entry.
    pub counter_id: u64,
}

/// Why a row was not inserted.
#[derive(Clone, Copy, Debug, PartialEq, Eq, Structural)]
pub enum StoreError {
    /// The message already has a board entry.
    DuplicateReference,
    /// The board entry already belongs to another message.
    DuplicateCounter,
}

/// Whether some row is about the message `reference_id`.
pub open spec fn has_reference(rows: Seq<BoardMapping>, reference_id: u64) -> bool {
    exists|i: int| 0 <= i < rows.len() && (#[trigger] rows[i]).reference_id == reference_id
}

/// Whether some row is about the board entry `counter_id`.
pub open spec fn has_counter(rows: Seq<BoardMapping>, counter_id: u64) -> bool {
    exists|i: int| 0 <= i < rows.len() && (#[trigger] rows[i]).counter_id == counter_id
}

/// No two rows share a message or a board entry.
pub open spec fn bijective(rows: Seq<BoardMapping>) -> bool {
    forall|i: int, j: int|
        0 <= i < rows.len() && 0 <= j < rows.len() && i != j ==> (#[trigger] rows[i]).reference_id
            != (#[trigger] rows[j]).reference_id && rows[i].counter_id != rows[j].counter_id
}

/// Rows are numbered in the order in which they were inserted, from 0.
pub open spec fn numbered(rows: Seq<BoardMapping>) -> bool {
    forall|i: int| 0 <= i < rows.len() ==> (#[trigger] rows[i]).id == i
}

/// The row about the message `reference_id`, if there is one.
pub open spec fn lookup(rows: Seq<BoardMapping>, reference_id: u64) -> Option<BoardMapping> {
    if has_reference(rows, reference_id) {
        Some(
            rows[choose|i: int|
                0 <= i < rows.len() && (#[trigger] rows[i]).reference_id == reference_id],
        )
    } else {
        None
    }
}

/// The row that an insertion into `rows` adds.
pub open spec fn next_row(rows: Seq<BoardMapping>, reference_id: u64, counter_id: u64)
    -> BoardMapping {
    BoardMapping { id: rows.len() as u64, reference_id, counter_id }
}

/// The table after an attempt to pair `reference_id` with `counter_id`: one
/// row longer, or the reason why the pair is refused. A message that is
/// already paired is reported before a board entry that is.
pub open spec fn inserted(rows: Seq<BoardMapping>, reference_id: u64, counter_id: u64) -> Result<
    Seq<BoardMapping>,
    StoreError,
> {
    if has_reference(rows, reference_id) {
        Err(StoreError::DuplicateReference)
    } else if has_counter(rows, counter_id) {
        Err(StoreError::DuplicateCounter)
    } else {
        Ok(rows.push(next_row(rows, reference_id, counter_id)))
    }
}

/// The table after an attempt to insert, whether it succeeded or not.
pub open spec fn after_insert(rows: Seq<BoardMapping>, reference_id: u64, counter_id: u64) -> Seq<
    BoardMapping,
> {
    match inserted(rows, reference_id, counter_id) {
        Ok(longer) => longer,
        Err(_) => rows,
    }
}

/// The table after a series of attempts to insert, each a message and a board
/// entry, made in order.
pub open spec fn after_inserts(rows: Seq<BoardMapping>, attempts: Seq<(u64, u64)>) -> Seq<
    BoardMapping,
>
    decreases attempts.len(),
{
    if attempts.len() == 0 {
        rows
    } else {
        after_insert(
            after_inserts(rows, attempts.drop_last()),
            attempts.last().0,
            attempts.last().1,
        )
    }
}

/// In a bijective table a lookup finds the one row about the message.
pub proof fn lemma_lookup_finds_the_row(rows: Seq<BoardMapping>, i: int)
    requires
        bijective(rows),
        0 <= i < rows.len(),
    ensures
        lookup(rows, rows[i].reference_id) == Some(rows[i]),
{
    let reference_id = rows[i].reference_id;
    let j = choose|j: int| 0 <= j < rows.len() && (#[trigger] rows[j]).reference_id == reference_id;
    assert(j == i);
}

/// An attempt to insert, whatever it is, leaves a bijective table bijective:
/// it never gives a message a second board entry, nor a board entry a second
/// message. Rows that were there stay as they were.
pub proof fn lemma_insert_keeps_bijection(
    rows: Seq<BoardMapping>,
    reference_id: u64,
    counter_id: u64,
)
    requires
        bijective(rows),
    ensures
        bijective(after_insert(rows, reference_id, counter_id)),
        rows.is_prefix_of(after_insert(rows, reference_id, counter_id)),
        after_insert(rows, reference_id, counter_id).len() <= rows.len() + 1,
{
}

/// A row that was inserted is found under its message.
pub proof fn lemma_inserted_is_found(rows: Seq<BoardMapping>, reference_id: u64, counter_id: u64)
    requires
        bijective(rows),
        inserted(rows, reference_id, counter_id) is Ok,
    ensures
        lookup(after_insert(rows, reference_id, counter_id), reference_id) == Some(
            next_row(rows, reference_id, counter_id),
        ),
{
    let longer = after_insert(rows, reference_id, counter_id);
    lemma_insert_keeps_bijection(rows, reference_id, counter_id);
    assert(longer[rows.len() as int] == next_row(rows, reference_id, counter_id));
    lemma_lookup_finds_the_row(longer, rows.len() as int);
}

/// However many attempts to insert are made, in whatever order, a bijective
/// table stays bijective, and a message that was paired stays paired with
/// the same board entry.
pub proof fn lemma_inserts_keep_bijection(rows: Seq<BoardMapping>, attempts: Seq<(u64, u64)>)
    requires
        bijective(rows),
    ensures
        bijective(after_inserts(rows, attempts)),
        rows.is_prefix_of(after_inserts(rows, attempts)),
        forall|i: int|
            0 <= i < rows.len() ==> lookup(
                after_inserts(rows, attempts),
                (#[trigger] rows[i]).reference_id,
            ) == Some(rows[i]),
    decreases attempts.len(),
{
    let end = after_inserts(rows, attempts);
    if attempts.len() > 0 {
        let before = after_inserts(rows, attempts.drop_last());
        lemma_inserts_keep_bijection(rows, attempts.drop_last());
        lemma_insert_keeps_bijection(before, attempts.last().0, attempts.last().1);
    }
    assert forall|i: int| 0 <= i < rows.len() implies lookup(
        end,
        (#[trigger] rows[i]).reference_id,
    ) == Some(rows[i]) by {
        assert(end[i] == rows[i]);
        lemma_lookup_finds_the_row(end, i);
    }
}

/// Of two attempts to pair the same message, whichever comes second adds
/// nothing: the message keeps the board entry of the first.
pub proof fn lemma_second_pairing_is_refused(
    rows: Seq<BoardMapping>,
    reference_id: u64,
    first: u64,
    second: u64,
)
    requires
        bijective(rows),
        inserted(rows, reference_id, first) is Ok,
    ensures
        inserted(after_insert(rows, reference_id, first), reference_id, second) == Err::<
            Seq<BoardMapping>,
            StoreError,
        >(StoreError::DuplicateReference),
        after_insert(after_insert(rows, reference_id, first), reference_id, second)
            == after_insert(rows, reference_id, first),
{
    let longer = after_insert(rows, reference_id, first);
    assert(longer[rows.len() as int].reference_id == reference_id);
}

impl BoardMapping {
    /// The text under which the source message is stored.
    pub fn reference_key(&self) -> (key: String)
        ensures
            key@ == decimal(self.reference_id as nat),
    {
        render_u64(self.reference_id)
    }

    /// The text under which the board entry is stored.
    pub fn counter_key(&self) -> (key: String)
        ensures
            key@ == decimal(self.counter_id as nat),
    {
        render_u64(self.counter_id)
    }

    /// A row as it is stored, with both identifiers as decimal text. There is
    /// a mapping exactly when both texts spell a `u64`.
    pub fn from_stored(id: u64, reference_key: &str, counter_key: &str) -> (row: Option<
        BoardMapping,
    >)
        ensures
            row == match (parsed(reference_key@), parsed(counter_key@)) {
                (Some(reference_id), Some(counter_id)) => Some(
                    BoardMapping { id, reference_id, counter_id },
                ),
                _ => None,
            },
    {
        match parse_u64(reference_key) {
            Some(reference_id) => match parse_u64(counter_key) {
                Some(counter_id) => Some(BoardMapping { id, reference_id, counter_id }),
                None => None,
            },
            None => None,
        }
    }
}

/// The keys under which a row is stored spell its identifiers, so that
/// [`BoardMapping::from_stored`] reads the row back as it was.
pub proof fn lemma_stored_row_reads_back(row: BoardMapping)
    ensures
        parsed(decimal(row.reference_id as nat)) == Some(row.reference_id),
        parsed(decimal(row.counter_id as nat)) == Some(row.counter_id),
{
    lemma_render_then_parse(row.reference_id);
    lemma_render_then_parse(row.counter_id);
}

/// The mapping table, held in memory.
#[derive(Debug)]
pub struct MappingStore {
    rows: Vec<BoardMapping>,
}

impl View for MappingStore {
    type V = Seq<BoardMapping>;

    closed spec fn view(&self) -> Seq<BoardMapping> {
        self.rows@
    }
}

impl MappingStore {
    /// What holds of every table: it is a bijection between messages and
    /// board entries, and its rows are numbered in order.
    pub open spec fn wf(&self) -> bool {
        bijective(self@) && numbered(self@)
    }

    /// An empty table.
    pub fn new() -> (store: MappingStore)
        ensures
            store@ == Seq::<BoardMapping>::empty(),
            store.wf(),
    {
        MappingStore { rows: Vec::new() }
    }

    /// The number of rows.
    pub fn len(&self) -> (n: usize)
        ensures
            n == self@.len(),
    {
        self.rows.len()
    }

    /// The rows in the order in which they were inserted.
    pub fn rows(&self) -> (rows: &Vec<BoardMapping>)
        ensures
            rows@ == self@,
    {
        &self.rows
    }

    /// The row about the message `reference_id`, if there is one.
    pub fn find_by_reference(&self, reference_id: u64) -> (found: Option<BoardMapping>)
        requires
            self.wf(),
        ensures
            found == lookup(self@, reference_id),
            found is Some <==> has_reference(self@, reference_id),
            found matches Some(row) ==> self@.contains(row) && row.reference_id == reference_id,
    {
        let mut i: usize = 0;
        while i < self.rows.len()
            invariant
                i <= self.rows.len(),
                self.wf(),
                forall|k: int| 0 <= k < i ==> (#[trigger] self.rows@[k]).reference_id != reference_id,
            decreases self.rows.len() - i,
        {
            if self.rows[i].reference_id == reference_id {
                proof {
                    let j = choose|j: int|
                        0 <= j < self@.len() && (#[trigger] self@[j]).reference_id == reference_id;
                    assert(self@[i as int].reference_id == reference_id);
                    assert(j == i);
                }
                return Some(self.rows[i]);
            }
            i += 1;
        }
        None
    }

    /// Whether some row is about the board entry `counter_id`.
    fn uses_counter(&self, counter_id: u64) -> (used: bool)
        ensures
            used == has_counter(self@, counter_id),
    {
        let mut i: usize = 0;
        while i < self.rows.len()
            invariant
                i <= self.rows.len(),
                forall|k: int| 0 <= k < i ==> (#[trigger] self.rows@[k]).counter_id != counter_id,
            decreases self.rows.len() - i,
        {
            if self.rows[i].counter_id == counter_id {
                return true;
            }
            i += 1;
        }
        false
    }

    /// Pairs the message `reference_id` with the board entry `counter_id`.
    /// The row is added exactly when neither is paired yet; otherwise the
    /// table stays as it is.
    pub fn insert(&mut self, reference_id: u64, counter_id: u64) -> (outcome: Result<
        BoardMapping,
        StoreError,
    >)
        requires
            old(self).wf(),
        ensures
            final(self).wf(),
            final(self)@ == after_insert(old(self)@, reference_id, counter_id),
            outcome == match inserted(old(self)@, reference_id, counter_id) {
                Ok(_) => Ok(next_row(old(self)@, reference_id, counter_id)),
                Err(e) => Err(e),
            },
    {
        if self.find_by_reference(reference_id).is_some() {
            return Err(StoreError::DuplicateReference);
        }
        if self.uses_counter(counter_id) {
            return Err(StoreError::DuplicateCounter);
        }
        let row = BoardMapping { id: self.rows.len() as u64, reference_id, counter_id };
        self.rows.push(row);
        Ok(row)
    }
}

} // verus!
