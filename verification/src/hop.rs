//! Single-hop scans: the neighbours or edges of one node under one label, and
//! the nodes or edges of one type.
//!
//! A hop reads the entries stored under one exact adjacency key. An entry
//! whose target is missing from its table is passed over; an entry or a
//! target that cannot be decoded fails the scan. A key that the index does not
//! hold gives no items and no failure. Only the hashed label is compared, so
//! two labels with the same hash share their entries.

use vstd::prelude::*;
use crate::element::{
    element_of, views, EdgeType, ElementKind, ElementView, GraphError, TraversalVal,
};
use crate::key::{adjacency_key, in_edge_key, out_edge_key};
use crate::label_hash::{hash_label, label_hash};
use crate::store::{find_record, record_of, same_bytes, AdjacencyEntry, Snapshot, StoredRecord};
use crate::stream::{
    absorb, collect, flat, lemma_absorb_single, lemma_scan_end, lemma_scan_start,
    lemma_scan_step, lemma_scan_stops, Collected, Item, RESULT_CAP,
};

verus! {

/// Which adjacency index a hop reads.
#[derive(Clone, Copy, Debug, PartialEq, Eq, Structural)]
pub enum Direction {
    Out,
    In,
}

/// What a hop decodes for each entry: the node or vector element at the far
/// end, or the edge itself.
#[derive(Clone, Copy, Debug, PartialEq, Eq, Structural)]
pub enum Target {
    Node,
    Vector,
    Edge,
}

/// The target that a node hop of the given edge type decodes.
pub open spec fn target_of(edge_type: EdgeType) -> Target {
    match edge_type {
        EdgeType::Node => Target::Node,
        EdgeType::Vec => Target::Vector,
    }
}

/// The index that a direction reads.
pub open spec fn index_of(snap: Snapshot, dir: Direction) -> Seq<AdjacencyEntry> {
    match dir {
        Direction::Out => snap.out_edges@,
        Direction::In => snap.in_edges@,
    }
}

/// The table in which a target is looked up.
pub open spec fn table_of(snap: Snapshot, target: Target) -> Seq<StoredRecord> {
    match target {
        Target::Node => snap.nodes@,
        Target::Vector => snap.vectors@,
        Target::Edge => snap.edges@,
    }
}

/// The kind of element that a target decodes to.
pub open spec fn kind_of(target: Target) -> ElementKind {
    match target {
        Target::Node => ElementKind::Node,
        Target::Vector => ElementKind::VectorElement,
        Target::Edge => ElementKind::Edge,
    }
}

/// What one index entry yields to a scan for `key`.
pub open spec fn entry_items(snap: Snapshot, target: Target, key: Seq<u8>, entry: AdjacencyEntry) -> Seq<Item> {
    if entry.key@ != key {
        Seq::empty()
    } else {
        match entry.value {
            None => seq![None],
            Some(adj) => {
                let id = if target == Target::Edge {
                    adj.edge_id
                } else {
                    adj.node_id
                };
                match record_of(table_of(snap, target), id) {
                    None => Seq::empty(),
                    Some(row) => match row.data {
                        None => seq![None],
                        Some(data) => seq![Some(element_of(kind_of(target), row.id, data))],
                    },
                }
            },
        }
    }
}

/// `entry_items` with the scan's parameters fixed.
pub open spec fn entry_fn(snap: Snapshot, target: Target, key: Seq<u8>) -> spec_fn(AdjacencyEntry) -> Seq<Item> {
    |entry: AdjacencyEntry| entry_items(snap, target, key, entry)
}

/// The items of a hop from one node: those of the entries stored under the
/// node's key, in index order.
pub open spec fn node_items(snap: Snapshot, dir: Direction, target: Target, hash: u32, id: u128) -> Seq<Item> {
    flat(index_of(snap, dir), entry_fn(snap, target, adjacency_key(id, hash)))
}

/// What one stored row yields to a scan for a type label.
pub open spec fn row_items(kind: ElementKind, label: Seq<char>, row: StoredRecord) -> Seq<Item> {
    match row.data {
        None => seq![None],
        Some(data) => if data.label@ == label {
            seq![Some(element_of(kind, row.id, data))]
        } else {
            Seq::empty()
        },
    }
}

/// `row_items` with the scan's parameters fixed.
pub open spec fn row_fn(kind: ElementKind, label: Seq<char>) -> spec_fn(StoredRecord) -> Seq<Item> {
    |row: StoredRecord| row_items(kind, label, row)
}

/// The items of a full scan of a table for one type label.
pub open spec fn type_items(table: Seq<StoredRecord>, kind: ElementKind, label: Seq<char>) -> Seq<Item> {
    flat(table, row_fn(kind, label))
}

/// What a step's exec state stands for: the elements collected, or the failure.
pub open spec fn outcome(r: Result<(), GraphError>, out: Seq<TraversalVal>) -> Collected {
    match r {
        Ok(_) => Ok(views(out)),
        Err(e) => Err(e),
    }
}

/// What a finished step hands back, as the contracts see it.
pub open spec fn result_view(r: Result<Vec<TraversalVal>, GraphError>) -> Collected {
    match r {
        Ok(v) => Ok(views(v@)),
        Err(e) => Err(e),
    }
}

/// A node with no entry under its key has no items in that direction.
pub proof fn lemma_absent_prefix(snap: Snapshot, dir: Direction, target: Target, hash: u32, id: u128)
    requires
        forall|i: int|
            0 <= i < index_of(snap, dir).len() ==> index_of(snap, dir)[i].key@ != adjacency_key(
                id,
                hash,
            ),
    ensures
        node_items(snap, dir, target, hash, id) == Seq::<Item>::empty(),
        collect(node_items(snap, dir, target, hash, id), RESULT_CAP as nat) == Ok::<
            Seq<ElementView>,
            GraphError,
        >(Seq::empty()),
{
    lemma_no_match(index_of(snap, dir), snap, target, adjacency_key(id, hash));
}

proof fn lemma_no_match(entries: Seq<AdjacencyEntry>, snap: Snapshot, target: Target, key: Seq<u8>)
    requires
        forall|i: int| 0 <= i < entries.len() ==> entries[i].key@ != key,
    ensures
        flat(entries, entry_fn(snap, target, key)) == Seq::<Item>::empty(),
    decreases entries.len(),
{
    if entries.len() > 0 {
        lemma_no_match(entries.drop_last(), snap, target, key);
        assert(entry_items(snap, target, key, entries.last()) == Seq::<Item>::empty());
        assert(Seq::<Item>::empty() + Seq::<Item>::empty() =~= Seq::<Item>::empty());
    }
}

/// Scans the entries under `key`, adding what they yield to `out` until `out`
/// holds `cap` elements.
pub fn scan_prefix(
    snap: &Snapshot,
    dir: Direction,
    target: Target,
    key: &Vec<u8>,
    cap: usize,
    out: &mut Vec<TraversalVal>,
) -> (r: Result<(), GraphError>)
    ensures
        outcome(r, final(out)@) == absorb(
            Ok(views(old(out)@)),
            flat(index_of(*snap, dir), entry_fn(*snap, target, key@)),
            cap as nat,
        ),
{
    let entries = match dir {
        Direction::Out => &snap.out_edges,
        Direction::In => &snap.in_edges,
    };
    let table = match target {
        Target::Node => &snap.nodes,
        Target::Vector => &snap.vectors,
        Target::Edge => &snap.edges,
    };
    let kind = match target {
        Target::Node => ElementKind::Node,
        Target::Vector => ElementKind::VectorElement,
        Target::Edge => ElementKind::Edge,
    };
    let ghost f = entry_fn(*snap, target, key@);
    let ghost start: Collected = Ok(views(out@));
    proof {
        lemma_scan_start(entries@, f, start, cap as nat);
    }
    let mut j: usize = 0;
    while j < entries.len()
        invariant
            j <= entries@.len(),
            entries@ == index_of(*snap, dir),
            table@ == table_of(*snap, target),
            kind == kind_of(target),
            f == entry_fn(*snap, target, key@),
            start == Ok::<Seq<ElementView>, GraphError>(views(old(out)@)),
            absorb(start, flat(entries@.take(j as int), f), cap as nat) == Ok::<
                Seq<ElementView>,
                GraphError,
            >(views(out@)),
        decreases entries@.len() - j,
    {
        if out.len() >= cap {
            proof {
                lemma_scan_stops(entries@, f, j as int, start, cap as nat);
            }
            return Ok(());
        }
        let ghost before: Collected = Ok(views(out@));
        let ghost shown = views(out@);
        proof {
            lemma_scan_step(entries@, f, j as int, start, cap as nat);
            assert(f(entries@[j as int]) == entry_items(*snap, target, key@, entries@[j as int]));
        }
        let entry = &entries[j];
        let mut failed = false;
        if same_bytes(&entry.key, key) {
            match entry.value {
                None => {
                    failed = true;
                },
                Some(adj) => {
                    let id = match target {
                        Target::Edge => adj.edge_id,
                        _ => adj.node_id,
                    };
                    match find_record(table, id) {
                        None => {},
                        Some(row) => match &row.data {
                            None => {
                                failed = true;
                            },
                            Some(data) => {
                                out.push(
                                    TraversalVal { kind, id: row.id, data: data.duplicate() },
                                );
                                proof {
                                    let e = element_of(kind, row.id, *data);
                                    assert(views(out@) =~= shown.push(e));
                                    lemma_absorb_single(before, Some(e), cap as nat);
                                }
                            },
                        },
                    }
                },
            }
        }
        if failed {
            proof {
                lemma_absorb_single(before, None, cap as nat);
                lemma_scan_stops(entries@, f, j + 1, start, cap as nat);
            }
            return Err(GraphError::StorageDecodeError);
        }
        j = j + 1;
    }
    proof {
        lemma_scan_end(entries@, f);
    }
    Ok(())
}

/// Scans a whole table for the rows of one type, up to `cap` elements.
pub fn scan_type(table: &Vec<StoredRecord>, kind: ElementKind, label: &String, cap: usize) -> (r:
    Result<Vec<TraversalVal>, GraphError>)
    ensures
        result_view(r) == collect(type_items(table@, kind, label@), cap as nat),
{
    let mut out: Vec<TraversalVal> = Vec::new();
    let ghost f = row_fn(kind, label@);
    let ghost start: Collected = Ok(Seq::empty());
    proof {
        assert(views(out@) =~= Seq::<ElementView>::empty());
        lemma_scan_start(table@, f, start, cap as nat);
    }
    let mut i: usize = 0;
    while i < table.len()
        invariant
            i <= table@.len(),
            f == row_fn(kind, label@),
            start == Ok::<Seq<ElementView>, GraphError>(Seq::empty()),
            absorb(start, flat(table@.take(i as int), f), cap as nat) == Ok::<
                Seq<ElementView>,
                GraphError,
            >(views(out@)),
        decreases table@.len() - i,
    {
        if out.len() >= cap {
            proof {
                lemma_scan_stops(table@, f, i as int, start, cap as nat);
            }
            return Ok(out);
        }
        let ghost before: Collected = Ok(views(out@));
        let ghost shown = views(out@);
        proof {
            lemma_scan_step(table@, f, i as int, start, cap as nat);
            assert(f(table@[i as int]) == row_items(kind, label@, table@[i as int]));
        }
        let row = &table[i];
        match &row.data {
            None => {
                proof {
                    lemma_absorb_single(before, None, cap as nat);
                    lemma_scan_stops(table@, f, i + 1, start, cap as nat);
                }
                return Err(GraphError::StorageDecodeError);
            },
            Some(data) => {
                if data.label == *label {
                    out.push(TraversalVal { kind, id: row.id, data: data.duplicate() });
                    proof {
                        let e = element_of(kind, row.id, *data);
                        assert(views(out@) =~= shown.push(e));
                        lemma_absorb_single(before, Some(e), cap as nat);
                    }
                }
            },
        }
        i = i + 1;
    }
    proof {
        lemma_scan_end(table@, f);
    }
    Ok(out)
}

/// One hop from one node, collected from nothing.
fn hop_from(snap: &Snapshot, dir: Direction, target: Target, id: u128, label: &str) -> (r: Result<
    Vec<TraversalVal>,
    GraphError,
>)
    ensures
        result_view(r) == collect(
            node_items(*snap, dir, target, label_hash(label@, None), id),
            RESULT_CAP as nat,
        ),
{
    let hash = hash_label(label, None);
    let key = match dir {
        Direction::Out => out_edge_key(id, hash),
        Direction::In => in_edge_key(id, hash),
    };
    let mut out: Vec<TraversalVal> = Vec::new();
    proof {
        assert(views(out@) =~= Seq::<ElementView>::empty());
    }
    match scan_prefix(snap, dir, target, &key, RESULT_CAP, &mut out) {
        Ok(_) => Ok(out),
        Err(e) => Err(e),
    }
}

/// The nodes, or vector elements, at the far end of the edges that leave
/// `start_id` under `label`: the first hundred in index order.
pub fn outgoing_nodes(snap: &Snapshot, start_id: u128, label: &str, edge_type: EdgeType) -> (r:
    Result<Vec<TraversalVal>, GraphError>)
    ensures
        result_view(r) == collect(
            node_items(
                *snap,
                Direction::Out,
                target_of(edge_type),
                label_hash(label@, None),
                start_id,
            ),
            RESULT_CAP as nat,
        ),
{
    let target = match edge_type {
        EdgeType::Node => Target::Node,
        EdgeType::Vec => Target::Vector,
    };
    hop_from(snap, Direction::Out, target, start_id, label)
}

/// The edges that leave `start_id` under `label`: the first hundred in index
/// order.
pub fn outgoing_edges(snap: &Snapshot, start_id: u128, label: &str) -> (r: Result<
    Vec<TraversalVal>,
    GraphError,
>)
    ensures
        result_view(r) == collect(
            node_items(*snap, Direction::Out, Target::Edge, label_hash(label@, None), start_id),
            RESULT_CAP as nat,
        ),
{
    hop_from(snap, Direction::Out, Target::Edge, start_id, label)
}

/// The nodes, or vector elements, at the near end of the edges that reach
/// `start_id` under `label`: the first hundred in index order.
pub fn incoming_nodes(snap: &Snapshot, start_id: u128, label: &str, edge_type: EdgeType) -> (r:
    Result<Vec<TraversalVal>, GraphError>)
    ensures
        result_view(r) == collect(
            node_items(
                *snap,
                Direction::In,
                target_of(edge_type),
                label_hash(label@, None),
                start_id,
            ),
            RESULT_CAP as nat,
        ),
{
    let target = match edge_type {
        EdgeType::Node => Target::Node,
        EdgeType::Vec => Target::Vector,
    };
    hop_from(snap, Direction::In, target, start_id, label)
}

/// The edges that reach `start_id` under `label`: the first hundred in index
/// order.
pub fn incoming_edges(snap: &Snapshot, start_id: u128, label: &str) -> (r: Result<
    Vec<TraversalVal>,
    GraphError,
>)
    ensures
        result_view(r) == collect(
            node_items(*snap, Direction::In, Target::Edge, label_hash(label@, None), start_id),
            RESULT_CAP as nat,
        ),
{
    hop_from(snap, Direction::In, Target::Edge, start_id, label)
}

/// The nodes of one type: the first hundred in table order. The whole table
/// may be walked to find them.
pub fn nodes_by_type(snap: &Snapshot, type_label: &String) -> (r: Result<
    Vec<TraversalVal>,
    GraphError,
>)
    ensures
        result_view(r) == collect(
            type_items(snap.nodes@, ElementKind::Node, type_label@),
            RESULT_CAP as nat,
        ),
{
    scan_type(&snap.nodes, ElementKind::Node, type_label, RESULT_CAP)
}

/// The edges of one type: the first hundred in table order. The whole table
/// may be walked to find them.
pub fn edges_by_type(snap: &Snapshot, type_label: &String) -> (r: Result<
    Vec<TraversalVal>,
    GraphError,
>)
    ensures
        result_view(r) == collect(
            type_items(snap.edges@, ElementKind::Edge, type_label@),
            RESULT_CAP as nat,
        ),
{
    scan_type(&snap.edges, ElementKind::Edge, type_label, RESULT_CAP)
}

} // verus!
