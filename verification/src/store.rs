//! The store as one read transaction sees it.

use vstd::prelude::*;
use crate::element::RecordData;

verus! {

/// One row of the node, edge or vector table.
#[derive(Debug)]
pub struct StoredRecord {
    pub id: u128,
    /// The decoded body, or `None` where the stored bytes are malformed.
    pub data: Option<RecordData>,
}

/// What an adjacency entry names: the edge and the node at its far end.
#[derive(Clone, Copy, Debug, PartialEq, Eq, Structural)]
pub struct Adjacent {
    pub edge_id: u128,
    pub node_id: u128,
}

/// One entry of an adjacency index. Many entries may share a key.
#[derive(Debug)]
pub struct AdjacencyEntry {
    pub key: Vec<u8>,
    /// The decoded value, or `None` where the stored bytes are malformed.
    pub value: Option<Adjacent>,
}

/// The tables and indexes of the store, each in index order, as they stood
/// when the read transaction began. A snapshot is never written to.
#[derive(Debug)]
pub struct Snapshot {
    pub nodes: Vec<StoredRecord>,
    pub edges: Vec<StoredRecord>,
    pub vectors: Vec<StoredRecord>,
    pub out_edges: Vec<AdjacencyEntry>,
    pub in_edges: Vec<AdjacencyEntry>,
}

/// Position of the first row with this identifier at or after `from`, or the
/// table's length where there is none.
pub open spec fn position_from(table: Seq<StoredRecord>, id: u128, from: int) -> int
    decreases table.len() - from,
{
    if from < 0 || from >= table.len() {
        table.len() as int
    } else if table[from].id == id {
        from
    } else {
        position_from(table, id, from + 1)
    }
}

/// The row stored under an identifier, if the table has one.
pub open spec fn record_of(table: Seq<StoredRecord>, id: u128) -> Option<StoredRecord> {
    let p = position_from(table, id, 0);
    if 0 <= p < table.len() {
        Some(table[p])
    } else {
        None
    }
}

/// Looks a row up by its identifier.
pub fn find_record(table: &Vec<StoredRecord>, id: u128) -> (r: Option<&StoredRecord>)
    ensures
        match r {
            Some(row) => record_of(table@, id) == Some(*row),
            None => record_of(table@, id).is_none(),
        },
{
    let mut i: usize = 0;
    while i < table.len()
        invariant
            i <= table@.len(),
            position_from(table@, id, 0) == position_from(table@, id, i as int),
        decreases table@.len() - i,
    {
        if table[i].id == id {
            return Some(&table[i]);
        }
        i = i + 1;
    }
    None
}

/// Whether two byte strings are the same.
pub fn same_bytes(a: &Vec<u8>, b: &Vec<u8>) -> (r: bool)
    ensures
        r == (a@ == b@),
{
    if a.len() != b.len() {
        return false;
    }
    let mut i: usize = 0;
    while i < a.len()
        invariant
            i <= a@.len(),
            a@.len() == b@.len(),
            forall|j: int| 0 <= j < i ==> a@[j] == b@[j],
        decreases a@.len() - i,
    {
        if a[i] != b[i] {
            return false;
        }
        i = i + 1;
    }
    assert(a@ =~= b@);
    true
}

} // verus!
