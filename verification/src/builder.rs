//! The traversal builder: a working set bound to a snapshot, over which hops
//! are chained.
//!
//! A hop is applied to every element of the set in order, and what the
//! elements yield is concatenated, with nothing merged or removed, until the
//! cap is reached.

use vstd::prelude::*;
use crate::element::{views, EdgeType, ElementView, GraphError, TraversalVal};
use crate::hop::{
    index_of, lemma_absent_prefix, node_items, result_view, scan_prefix, target_of, Direction,
    Target,
};
use crate::key::{adjacency_key, in_edge_key, out_edge_key};
use crate::label_hash::{hash_label, label_hash};
use crate::store::Snapshot;
use crate::stream::{
    absorb, collect, flat, lemma_scan_end, lemma_scan_start, lemma_scan_step, lemma_scan_stops,
    Collected, Item, RESULT_CAP,
};

verus! {

/// `node_items` with the hop's parameters fixed.
pub open spec fn node_fn(snap: Snapshot, dir: Direction, target: Target, hash: u32) -> spec_fn(
    ElementView,
) -> Seq<Item> {
    |e: ElementView| node_items(snap, dir, target, hash, e.id)
}

/// The items of a hop from a working set: for each element in order, the
/// items of the hop from that element.
pub open spec fn hop_items(
    snap: Snapshot,
    dir: Direction,
    target: Target,
    hash: u32,
    ws: Seq<ElementView>,
) -> Seq<Item> {
    flat(ws, node_fn(snap, dir, target, hash))
}

/// What a hop under `label` from a working set gives when collected up to
/// `cap` elements.
pub open spec fn hop_result(
    snap: Snapshot,
    dir: Direction,
    target: Target,
    label: Seq<char>,
    ws: Seq<ElementView>,
    cap: nat,
) -> Collected {
    collect(hop_items(snap, dir, target, label_hash(label, None), ws), cap)
}

/// Whether a hop under `label` from a working set yields anything. Only the
/// first item is looked at.
pub open spec fn hop_exists(
    snap: Snapshot,
    dir: Direction,
    target: Target,
    label: Seq<char>,
    ws: Seq<ElementView>,
) -> Result<bool, GraphError> {
    match hop_result(snap, dir, target, label, ws, 1) {
        Ok(s) => Ok(s.len() > 0),
        Err(e) => Err(e),
    }
}

/// A hop from a working set none of whose elements has an entry under the
/// label gives the empty set, and no failure.
pub proof fn lemma_hop_without_edges(
    snap: Snapshot,
    dir: Direction,
    target: Target,
    label: Seq<char>,
    ws: Seq<ElementView>,
    cap: nat,
)
    requires
        forall|k: int, i: int|
            #![trigger ws[k], index_of(snap, dir)[i]]
            0 <= k < ws.len() && 0 <= i < index_of(snap, dir).len() ==> index_of(snap, dir)[i].key@
                != adjacency_key(ws[k].id, label_hash(label, None)),
    ensures
        hop_items(snap, dir, target, label_hash(label, None), ws) == Seq::<Item>::empty(),
        hop_result(snap, dir, target, label, ws, cap) == Ok::<Seq<ElementView>, GraphError>(
            Seq::empty(),
        ),
    decreases ws.len(),
{
    let hash = label_hash(label, None);
    if ws.len() > 0 {
        let rest = ws.drop_last();
        assert(forall|k: int| 0 <= k < rest.len() ==> rest[k] == ws[k]);
        lemma_hop_without_edges(snap, dir, target, label, rest, cap);
        assert(ws.last() == ws[ws.len() - 1]);
        lemma_absent_prefix(snap, dir, target, hash, ws.last().id);
        assert(node_fn(snap, dir, target, hash)(ws.last()) == node_items(
            snap,
            dir,
            target,
            hash,
            ws.last().id,
        ));
        assert(Seq::<Item>::empty() + Seq::<Item>::empty() =~= Seq::<Item>::empty());
    }
}

/// Applies one hop to every element of `items` and collects up to `cap`
/// elements of what they yield.
pub fn expand(
    snap: &Snapshot,
    dir: Direction,
    target: Target,
    label: &str,
    items: &Vec<TraversalVal>,
    cap: usize,
) -> (r: Result<Vec<TraversalVal>, GraphError>)
    ensures
        result_view(r) == hop_result(*snap, dir, target, label@, views(items@), cap as nat),
{
    let hash = hash_label(label, None);
    let mut out: Vec<TraversalVal> = Vec::new();
    let ghost ws = views(items@);
    let ghost f = node_fn(*snap, dir, target, hash);
    let ghost start: Collected = Ok(Seq::empty());
    proof {
        assert(views(out@) =~= Seq::<ElementView>::empty());
        lemma_scan_start(ws, f, start, cap as nat);
    }
    let mut i: usize = 0;
    while i < items.len()
        invariant
            i <= items@.len(),
            ws == views(items@),
            hash == label_hash(label@, None),
            f == node_fn(*snap, dir, target, hash),
            start == Ok::<Seq<ElementView>, GraphError>(Seq::empty()),
            absorb(start, flat(ws.take(i as int), f), cap as nat) == Ok::<
                Seq<ElementView>,
                GraphError,
            >(views(out@)),
        decreases items@.len() - i,
    {
        if out.len() >= cap {
            proof {
                lemma_scan_stops(ws, f, i as int, start, cap as nat);
            }
            return Ok(out);
        }
        proof {
            lemma_scan_step(ws, f, i as int, start, cap as nat);
            assert(f(ws[i as int]) == node_items(*snap, dir, target, hash, items@[i as int].id));
        }
        let id = items[i].id();
        let key = match dir {
            Direction::Out => out_edge_key(id, hash),
            Direction::In => in_edge_key(id, hash),
        };
        match scan_prefix(snap, dir, target, &key, cap, &mut out) {
            Ok(_) => {},
            Err(e) => {
                proof {
                    lemma_scan_stops(ws, f, i + 1, start, cap as nat);
                }
                return Err(e);
            },
        }
        i = i + 1;
    }
    proof {
        lemma_scan_end(ws, f);
    }
    Ok(out)
}

/// A working set bound to the snapshot it was read from.
pub struct G<'a> {
    pub storage: &'a Snapshot,
    pub items: Vec<TraversalVal>,
}

/// What a chained hop hands back, as the contracts see it.
pub open spec fn chained_view<'a>(r: Result<G<'a>, GraphError>) -> Collected {
    match r {
        Ok(g) => Ok(views(g.items@)),
        Err(e) => Err(e),
    }
}

impl<'a> G<'a> {
    /// Starts a traversal from the given elements.
    pub fn new_from(storage: &'a Snapshot, items: Vec<TraversalVal>) -> (g: G<'a>)
        ensures
            g.storage == storage,
            g.items == items,
    {
        G { storage, items }
    }

    fn step(self, dir: Direction, target: Target, label: &str) -> (r: Result<G<'a>, GraphError>)
        ensures
            chained_view(r) == hop_result(
                *self.storage,
                dir,
                target,
                label@,
                views(self.items@),
                RESULT_CAP as nat,
            ),
            r is Ok ==> r->Ok_0.storage == self.storage,
    {
        match expand(self.storage, dir, target, label, &self.items, RESULT_CAP) {
            Ok(items) => Ok(G { storage: self.storage, items }),
            Err(e) => Err(e),
        }
    }

    /// Follows the outgoing edges under `label` to the nodes, or vector
    /// elements, at their far end.
    pub fn out(self, label: &str, edge_type: EdgeType) -> (r: Result<G<'a>, GraphError>)
        ensures
            chained_view(r) == hop_result(
                *self.storage,
                Direction::Out,
                target_of(edge_type),
                label@,
                views(self.items@),
                RESULT_CAP as nat,
            ),
            r is Ok ==> r->Ok_0.storage == self.storage,
    {
        let target = match edge_type {
            EdgeType::Node => Target::Node,
            EdgeType::Vec => Target::Vector,
        };
        self.step(Direction::Out, target, label)
    }

    /// Steps onto the outgoing edges under `label`.
    pub fn out_e(self, label: &str) -> (r: Result<G<'a>, GraphError>)
        ensures
            chained_view(r) == hop_result(
                *self.storage,
                Direction::Out,
                Target::Edge,
                label@,
                views(self.items@),
                RESULT_CAP as nat,
            ),
            r is Ok ==> r->Ok_0.storage == self.storage,
    {
        self.step(Direction::Out, Target::Edge, label)
    }

    /// Follows the incoming edges under `label` back to the nodes, or vector
    /// elements, at their near end.
    pub fn in_(self, label: &str, edge_type: EdgeType) -> (r: Result<G<'a>, GraphError>)
        ensures
            chained_view(r) == hop_result(
                *self.storage,
                Direction::In,
                target_of(edge_type),
                label@,
                views(self.items@),
                RESULT_CAP as nat,
            ),
            r is Ok ==> r->Ok_0.storage == self.storage,
    {
        let target = match edge_type {
            EdgeType::Node => Target::Node,
            EdgeType::Vec => Target::Vector,
        };
        self.step(Direction::In, target, label)
    }

    /// Steps onto the incoming edges under `label`.
    pub fn in_e(self, label: &str) -> (r: Result<G<'a>, GraphError>)
        ensures
            chained_view(r) == hop_result(
                *self.storage,
                Direction::In,
                Target::Edge,
                label@,
                views(self.items@),
                RESULT_CAP as nat,
            ),
            r is Ok ==> r->Ok_0.storage == self.storage,
    {
        self.step(Direction::In, Target::Edge, label)
    }

    /// Whether a hop from the current set yields anything; stops at the first
    /// item.
    pub fn probe(&self, dir: Direction, target: Target, label: &str) -> (r: Result<
        bool,
        GraphError,
    >)
        ensures
            r == hop_exists(*self.storage, dir, target, label@, views(self.items@)),
    {
        match expand(self.storage, dir, target, label, &self.items, 1) {
            Ok(found) => Ok(found.len() > 0),
            Err(e) => Err(e),
        }
    }

    /// Ends the chain and hands the current set over.
    pub fn collect_to_vec(self) -> (items: Vec<TraversalVal>)
        ensures
            items == self.items,
    {
        self.items
    }
}

} // verus!
