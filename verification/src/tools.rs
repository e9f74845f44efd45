//! The query session: step descriptors, their dispatch, and the filter
//! operator.
//!
//! A session is open until it is closed, and closed for good after that. Each
//! step that succeeds replaces the session's working set by the step's result;
//! a step that fails leaves the session as it was.
//!
//! The filter's nested hops gate the result: an element from which none of
//! them yields anything is dropped. A nested descriptor that is not a hop
//! rejects the whole step, and so does a record that cannot be decoded where a
//! nested hop looks for its first result.

use vstd::prelude::*;
use crate::builder::{hop_exists, hop_result, expand, G};
use crate::element::{
    pairs_view, property_value, views, EdgeType, ElementKind, ElementView, GraphError,
    PropertiesView, TraversalVal,
};
use crate::hop::{
    edges_by_type, nodes_by_type, result_view, target_of, type_items, Direction, Target,
};
use crate::store::Snapshot;
use crate::stream::{collect, lemma_absorb_bounded, Collected, RESULT_CAP};

verus! {

/// A step descriptor: one traversal step, or a filter with nested steps that
/// are only tested for a result.
#[derive(Debug)]
#[allow(inconsistent_fields)]
pub enum ToolArgs {
    OutStep { edge_label: String, edge_type: EdgeType },
    OutEStep { edge_label: String },
    InStep { edge_label: String, edge_type: EdgeType },
    InEStep { edge_label: String },
    NFromType { node_type: String },
    EFromType { edge_type: String },
    FilterItems {
        properties: Option<Vec<(String, String)>>,
        filter_traversals: Option<Vec<ToolArgs>>,
    },
}

/// A query session: the working set, and whether the session is still open.
#[derive(Debug)]
pub struct MCPConnection {
    iter: Vec<TraversalVal>,
    open: bool,
}

/// The step dispatcher over the snapshot that its sessions read.
#[derive(Debug)]
pub struct McpBackend {
    pub db: Snapshot,
}

/// Whether a descriptor is one of the four hops, the only ones that may be
/// nested in a filter.
pub open spec fn is_single_hop(step: ToolArgs) -> bool {
    match step {
        ToolArgs::OutStep { .. } => true,
        ToolArgs::OutEStep { .. } => true,
        ToolArgs::InStep { .. } => true,
        ToolArgs::InEStep { .. } => true,
        _ => false,
    }
}

/// Whether every nested descriptor is a hop.
pub open spec fn all_single_hop(steps: Seq<ToolArgs>) -> bool {
    forall|i: int| 0 <= i < steps.len() ==> is_single_hop(#[trigger] steps[i])
}

/// Whether the properties meet every constraint: each named property is
/// there, and its value is the expected string.
pub open spec fn satisfies(props: PropertiesView, constraints: PropertiesView) -> bool {
    forall|i: int|
        0 <= i < constraints.len() ==> property_value(props, (#[trigger] constraints[i]).0)
            == Some(constraints[i].1)
}

/// Whether the nested hop yields anything when started from `e` alone.
pub open spec fn probe_one(snap: Snapshot, e: ElementView, step: ToolArgs) -> Result<
    bool,
    GraphError,
> {
    match step {
        ToolArgs::OutStep { edge_label, edge_type } => hop_exists(
            snap,
            Direction::Out,
            target_of(edge_type),
            edge_label@,
            seq![e],
        ),
        ToolArgs::OutEStep { edge_label } => hop_exists(
            snap,
            Direction::Out,
            Target::Edge,
            edge_label@,
            seq![e],
        ),
        ToolArgs::InStep { edge_label, edge_type } => hop_exists(
            snap,
            Direction::In,
            target_of(edge_type),
            edge_label@,
            seq![e],
        ),
        ToolArgs::InEStep { edge_label } => hop_exists(
            snap,
            Direction::In,
            Target::Edge,
            edge_label@,
            seq![e],
        ),
        _ => Err(GraphError::UnsupportedStep),
    }
}

/// Whether any nested hop from position `from` on yields something from `e`.
/// The hops are tried in order, and the first that yields or fails decides.
pub open spec fn any_from(snap: Snapshot, e: ElementView, steps: Seq<ToolArgs>, from: int) -> Result<
    bool,
    GraphError,
>
    decreases steps.len() - from,
{
    if from < 0 || from >= steps.len() {
        Ok(false)
    } else {
        match probe_one(snap, e, steps[from]) {
            Ok(false) => any_from(snap, e, steps, from + 1),
            decided => decided,
        }
    }
}

/// Whether the filter keeps `e`: it meets the property constraints, if any,
/// and then some nested hop, if any are given, yields a result from it.
#[verifier::opaque]
pub open spec fn keeps(
    snap: Snapshot,
    e: ElementView,
    constraints: Option<PropertiesView>,
    nested: Option<Seq<ToolArgs>>,
) -> Result<bool, GraphError> {
    if constraints is Some && !satisfies(e.properties, constraints->Some_0) {
        Ok(false)
    } else {
        match nested {
            None => Ok(true),
            Some(steps) => any_from(snap, e, steps, 0),
        }
    }
}

/// Adds `e` to what the filter has kept, by the verdict on it.
pub open spec fn filter_one(acc: Collected, verdict: Result<bool, GraphError>, e: ElementView) -> Collected {
    match acc {
        Err(_) => acc,
        Ok(kept) => match verdict {
            Err(x) => Err(x),
            Ok(true) => Ok(kept.push(e)),
            Ok(false) => acc,
        },
    }
}

/// The elements that the filter keeps, in the order they had, or the first
/// failure met.
pub open spec fn filtered(
    snap: Snapshot,
    ws: Seq<ElementView>,
    constraints: Option<PropertiesView>,
    nested: Option<Seq<ToolArgs>>,
) -> Collected
    decreases ws.len(),
{
    if ws.len() == 0 {
        Ok(Seq::empty())
    } else {
        filter_one(
            filtered(snap, ws.drop_last(), constraints, nested),
            keeps(snap, ws.last(), constraints, nested),
            ws.last(),
        )
    }
}

/// What a filter step gives: it is rejected where a nested descriptor is not a
/// hop, whatever the working set holds.
pub open spec fn filter_result(
    snap: Snapshot,
    ws: Seq<ElementView>,
    constraints: Option<PropertiesView>,
    nested: Option<Seq<ToolArgs>>,
) -> Collected {
    if nested is Some && !all_single_hop(nested->Some_0) {
        Err(GraphError::UnsupportedStep)
    } else {
        filtered(snap, ws, constraints, nested)
    }
}

/// The constraints of a filter step as the contracts see them.
pub open spec fn constraints_view(properties: Option<Vec<(String, String)>>) -> Option<
    PropertiesView,
> {
    match properties {
        Some(pairs) => Some(pairs_view(pairs@)),
        None => None,
    }
}

/// The nested descriptors of a filter step as the contracts see them.
pub open spec fn nested_view(filter_traversals: Option<Vec<ToolArgs>>) -> Option<Seq<ToolArgs>> {
    match filter_traversals {
        Some(steps) => Some(steps@),
        None => None,
    }
}

/// What a step gives on a working set.
pub open spec fn step_result(snap: Snapshot, ws: Seq<ElementView>, args: ToolArgs) -> Collected {
    match args {
        ToolArgs::OutStep { edge_label, edge_type } => hop_result(
            snap,
            Direction::Out,
            target_of(edge_type),
            edge_label@,
            ws,
            RESULT_CAP as nat,
        ),
        ToolArgs::OutEStep { edge_label } => hop_result(
            snap,
            Direction::Out,
            Target::Edge,
            edge_label@,
            ws,
            RESULT_CAP as nat,
        ),
        ToolArgs::InStep { edge_label, edge_type } => hop_result(
            snap,
            Direction::In,
            target_of(edge_type),
            edge_label@,
            ws,
            RESULT_CAP as nat,
        ),
        ToolArgs::InEStep { edge_label } => hop_result(
            snap,
            Direction::In,
            Target::Edge,
            edge_label@,
            ws,
            RESULT_CAP as nat,
        ),
        ToolArgs::NFromType { node_type } => collect(
            type_items(snap.nodes@, ElementKind::Node, node_type@),
            RESULT_CAP as nat,
        ),
        ToolArgs::EFromType { edge_type } => collect(
            type_items(snap.edges@, ElementKind::Edge, edge_type@),
            RESULT_CAP as nat,
        ),
        ToolArgs::FilterItems { properties, filter_traversals } => filter_result(
            snap,
            ws,
            constraints_view(properties),
            nested_view(filter_traversals),
        ),
    }
}

/// What a session answers to a step: a closed session rejects it.
pub open spec fn call_result(snap: Snapshot, open: bool, ws: Seq<ElementView>, args: ToolArgs) -> Collected {
    if open {
        step_result(snap, ws, args)
    } else {
        Err(GraphError::SessionClosed)
    }
}

/// The working set after a step: the step's result, or the set as it was
/// where the step is rejected.
pub open spec fn after_step(snap: Snapshot, open: bool, ws: Seq<ElementView>, args: ToolArgs) -> Seq<
    ElementView,
> {
    match call_result(snap, open, ws, args) {
        Ok(next) => next,
        Err(_) => ws,
    }
}

/// The working set after a sequence of steps, each taken on what the one
/// before it left.
pub open spec fn after_steps(snap: Snapshot, open: bool, ws: Seq<ElementView>, steps: Seq<ToolArgs>) -> Seq<
    ElementView,
>
    decreases steps.len(),
{
    if steps.len() == 0 {
        ws
    } else {
        after_step(snap, open, after_steps(snap, open, ws, steps.drop_last()), steps.last())
    }
}

/// How many steps of a sequence are carried out rather than rejected.
pub open spec fn carried_out(snap: Snapshot, open: bool, ws: Seq<ElementView>, steps: Seq<ToolArgs>) -> nat
    decreases steps.len(),
{
    if steps.len() == 0 {
        0
    } else {
        let before = after_steps(snap, open, ws, steps.drop_last());
        let done = carried_out(snap, open, ws, steps.drop_last());
        if call_result(snap, open, before, steps.last()) is Ok {
            done + 1
        } else {
            done
        }
    }
}

/// The filter's test as a predicate on elements: the verdict is to keep.
pub open spec fn keeps_fn(
    snap: Snapshot,
    constraints: Option<PropertiesView>,
    nested: Option<Seq<ToolArgs>>,
) -> spec_fn(ElementView) -> bool {
    |e: ElementView| keeps(snap, e, constraints, nested) == Ok::<bool, GraphError>(true)
}

/// Where the filter reaches a verdict on every element, it keeps exactly the
/// elements that pass, in the order they had.
pub proof fn lemma_filter_keeps_passing(
    snap: Snapshot,
    ws: Seq<ElementView>,
    constraints: Option<PropertiesView>,
    nested: Option<Seq<ToolArgs>>,
)
    requires
        forall|i: int| 0 <= i < ws.len() ==> keeps(snap, #[trigger] ws[i], constraints, nested) is Ok,
    ensures
        filtered(snap, ws, constraints, nested) == Ok::<Seq<ElementView>, GraphError>(
            ws.filter(keeps_fn(snap, constraints, nested)),
        ),
    decreases ws.len(),
{
    let p = keeps_fn(snap, constraints, nested);
    reveal(Seq::filter);
    if ws.len() == 0 {
        assert(ws.filter(p) =~= Seq::<ElementView>::empty());
    } else {
        let rest = ws.drop_last();
        assert(forall|i: int| 0 <= i < rest.len() ==> rest[i] == ws[i]);
        lemma_filter_keeps_passing(snap, rest, constraints, nested);
        assert(ws.last() == ws[ws.len() - 1]);
        assert(keeps(snap, ws.last(), constraints, nested) is Ok);
        assert(ws.filter(p) == if p(ws.last()) {
            rest.filter(p).push(ws.last())
        } else {
            rest.filter(p)
        });
    }
}

/// A closed session keeps its last working set whatever steps arrive.
pub proof fn lemma_closed_is_terminal(snap: Snapshot, ws: Seq<ElementView>, steps: Seq<ToolArgs>)
    ensures
        after_steps(snap, false, ws, steps) == ws,
    decreases steps.len(),
{
    if steps.len() > 0 {
        lemma_closed_is_terminal(snap, ws, steps.drop_last());
    }
}

/// A working set within the bound stays within it through any sequence of
/// steps.
pub proof fn lemma_steps_bounded(snap: Snapshot, open: bool, ws: Seq<ElementView>, steps: Seq<ToolArgs>)
    requires
        ws.len() <= RESULT_CAP,
    ensures
        after_steps(snap, open, ws, steps).len() <= RESULT_CAP,
    decreases steps.len(),
{
    if steps.len() > 0 {
        lemma_steps_bounded(snap, open, ws, steps.drop_last());
        lemma_step_bounded(snap, after_steps(snap, open, ws, steps.drop_last()), steps.last());
    }
}

/// Once the filter has failed on a prefix of the working set, it has failed.
pub proof fn lemma_filter_fails(
    snap: Snapshot,
    ws: Seq<ElementView>,
    constraints: Option<PropertiesView>,
    nested: Option<Seq<ToolArgs>>,
    k: int,
)
    requires
        0 <= k <= ws.len(),
        filtered(snap, ws.take(k), constraints, nested) is Err,
    ensures
        filtered(snap, ws, constraints, nested) == filtered(snap, ws.take(k), constraints, nested),
    decreases ws.len(),
{
    if k == ws.len() {
        assert(ws.take(k) =~= ws);
    } else {
        assert(ws.drop_last().take(k) =~= ws.take(k));
        lemma_filter_fails(snap, ws.drop_last(), constraints, nested, k);
    }
}

/// A filter keeps no more elements than it was given.
pub proof fn lemma_filter_shrinks(
    snap: Snapshot,
    ws: Seq<ElementView>,
    constraints: Option<PropertiesView>,
    nested: Option<Seq<ToolArgs>>,
)
    ensures
        filtered(snap, ws, constraints, nested) is Ok ==> filtered(
            snap,
            ws,
            constraints,
            nested,
        )->Ok_0.len() <= ws.len(),
    decreases ws.len(),
{
    if ws.len() > 0 {
        lemma_filter_shrinks(snap, ws.drop_last(), constraints, nested);
    }
}

/// No step hands back more than a hundred elements. A filter step scans
/// nothing and so keeps what it is given: for it this holds where the working
/// set before the step was within the bound.
pub proof fn lemma_step_bounded(snap: Snapshot, ws: Seq<ElementView>, args: ToolArgs)
    requires
        args is FilterItems ==> ws.len() <= RESULT_CAP,
    ensures
        step_result(snap, ws, args) is Ok ==> step_result(snap, ws, args)->Ok_0.len()
            <= RESULT_CAP,
{
    let start: Collected = Ok(Seq::empty());
    match args {
        ToolArgs::OutStep { edge_label, edge_type } => {
            lemma_absorb_bounded(
                start,
                crate::builder::hop_items(
                    snap,
                    Direction::Out,
                    target_of(edge_type),
                    crate::label_hash::label_hash(edge_label@, None),
                    ws,
                ),
                RESULT_CAP as nat,
            );
        },
        ToolArgs::OutEStep { edge_label } => {
            lemma_absorb_bounded(
                start,
                crate::builder::hop_items(
                    snap,
                    Direction::Out,
                    Target::Edge,
                    crate::label_hash::label_hash(edge_label@, None),
                    ws,
                ),
                RESULT_CAP as nat,
            );
        },
        ToolArgs::InStep { edge_label, edge_type } => {
            lemma_absorb_bounded(
                start,
                crate::builder::hop_items(
                    snap,
                    Direction::In,
                    target_of(edge_type),
                    crate::label_hash::label_hash(edge_label@, None),
                    ws,
                ),
                RESULT_CAP as nat,
            );
        },
        ToolArgs::InEStep { edge_label } => {
            lemma_absorb_bounded(
                start,
                crate::builder::hop_items(
                    snap,
                    Direction::In,
                    Target::Edge,
                    crate::label_hash::label_hash(edge_label@, None),
                    ws,
                ),
                RESULT_CAP as nat,
            );
        },
        ToolArgs::NFromType { node_type } => {
            lemma_absorb_bounded(
                start,
                type_items(snap.nodes@, ElementKind::Node, node_type@),
                RESULT_CAP as nat,
            );
        },
        ToolArgs::EFromType { edge_type } => {
            lemma_absorb_bounded(
                start,
                type_items(snap.edges@, ElementKind::Edge, edge_type@),
                RESULT_CAP as nat,
            );
        },
        ToolArgs::FilterItems { properties, filter_traversals } => {
            lemma_filter_shrinks(
                snap,
                ws,
                constraints_view(properties),
                nested_view(filter_traversals),
            );
        },
    }
}

/// The test "meets every constraint" as a predicate on elements.
pub open spec fn meets_fn(constraints: PropertiesView) -> spec_fn(ElementView) -> bool {
    |e: ElementView| satisfies(e.properties, constraints)
}

/// With property constraints alone, the filter keeps exactly the elements that
/// meet every constraint, in the order they had, and never fails.
pub proof fn lemma_property_filter(snap: Snapshot, ws: Seq<ElementView>, constraints: PropertiesView)
    ensures
        filter_result(snap, ws, Some(constraints), None) == Ok::<Seq<ElementView>, GraphError>(
            ws.filter(meets_fn(constraints)),
        ),
    decreases ws.len(),
{
    let p = meets_fn(constraints);
    let given: Option<PropertiesView> = Some(constraints);
    reveal(Seq::filter);
    if ws.len() == 0 {
        assert(ws.filter(p) =~= Seq::<ElementView>::empty());
    } else {
        let rest = ws.drop_last();
        lemma_property_filter(snap, rest, constraints);
        assert(ws.filter(p) == if p(ws.last()) {
            rest.filter(p).push(ws.last())
        } else {
            rest.filter(p)
        });
        assert(keeps(snap, ws.last(), given, None) == Ok::<bool, GraphError>(p(ws.last()))) by {
            reveal(keeps);
        }
        assert(filtered(snap, ws, given, None) == filter_one(
            filtered(snap, rest, given, None),
            keeps(snap, ws.last(), given, None),
            ws.last(),
        ));
    }
}

/// Two constraints are met together exactly where each is met: the element
/// has both properties, each with its expected value.
pub proof fn lemma_two_constraints(
    props: PropertiesView,
    k1: Seq<char>,
    v1: Seq<char>,
    k2: Seq<char>,
    v2: Seq<char>,
)
    ensures
        satisfies(props, seq![(k1, v1), (k2, v2)]) <==> (property_value(props, k1) == Some(v1)
            && property_value(props, k2) == Some(v2)),
{
    let c = seq![(k1, v1), (k2, v2)];
    assert(c[0] == (k1, v1));
    assert(c[1] == (k2, v2));
}

/// What a session answers depends only on the snapshot, on the step, and on
/// what the session holds as the contracts see it: two sessions in the same
/// state answer the same, element for element and in the same order.
pub proof fn lemma_same_state_same_answer(
    snap: Snapshot,
    a: MCPConnection,
    b: MCPConnection,
    args: ToolArgs,
    ra: Result<Vec<TraversalVal>, GraphError>,
    rb: Result<Vec<TraversalVal>, GraphError>,
)
    requires
        a.accepting() == b.accepting(),
        views(a.items()) == views(b.items()),
        result_view(ra) == call_result(snap, a.accepting(), views(a.items()), args),
        result_view(rb) == call_result(snap, b.accepting(), views(b.items()), args),
    ensures
        result_view(ra) == result_view(rb),
        ra is Ok <==> rb is Ok,
        ra is Ok ==> views(ra->Ok_0@) == views(rb->Ok_0@),
        ra is Err ==> ra->Err_0 == rb->Err_0,
{
}

/// A closed session rejects every step.
pub proof fn lemma_closed_rejects(snap: Snapshot, ws: Seq<ElementView>, args: ToolArgs)
    ensures
        call_result(snap, false, ws, args) == Err::<Seq<ElementView>, GraphError>(
            GraphError::SessionClosed,
        ),
{
}

impl MCPConnection {
    /// Whether the session is open. A session is opened by `new` and closed
    /// by `close`; nothing opens it again.
    pub closed spec fn accepting(&self) -> bool {
        self.open
    }

    /// The working set that the session holds.
    pub closed spec fn items(&self) -> Seq<TraversalVal> {
        self.iter@
    }

    /// Opens a session on the given working set.
    pub fn new(iter: Vec<TraversalVal>) -> (c: MCPConnection)
        ensures
            c.accepting(),
            c.items() == iter@,
    {
        MCPConnection { iter, open: true }
    }

    /// Whether the session still takes steps.
    pub fn is_open(&self) -> (b: bool)
        ensures
            b == self.accepting(),
    {
        self.open
    }

    /// The current working set.
    pub fn working_set(&self) -> (items: &Vec<TraversalVal>)
        ensures
            items@ == self.items(),
    {
        &self.iter
    }

    /// Closes the session. Its last working set stays as it is.
    pub fn close(&mut self)
        ensures
            !final(self).accepting(),
            final(self).items() == old(self).items(),
    {
        self.open = false;
    }
}

/// Whether the element meets every constraint.
pub fn meets(item: &TraversalVal, constraints: &Vec<(String, String)>) -> (b: bool)
    ensures
        b == satisfies(item@.properties, pairs_view(constraints@)),
{
    let ghost cv = pairs_view(constraints@);
    let mut i: usize = 0;
    while i < constraints.len()
        invariant
            i <= constraints@.len(),
            cv == pairs_view(constraints@),
            forall|j: int|
                0 <= j < i ==> property_value(item@.properties, (#[trigger] cv[j]).0) == Some(
                    cv[j].1,
                ),
        decreases constraints@.len() - i,
    {
        assert(cv[i as int] == (constraints@[i as int].0@, constraints@[i as int].1@));
        let found = match item.check_property(&constraints[i].0) {
            Some(v) => *v == constraints[i].1,
            None => false,
        };
        if !found {
            return false;
        }
        i = i + 1;
    }
    true
}

/// Whether every nested descriptor is a hop.
pub fn only_hops(steps: &Vec<ToolArgs>) -> (b: bool)
    ensures
        b == all_single_hop(steps@),
{
    let mut i: usize = 0;
    while i < steps.len()
        invariant
            i <= steps@.len(),
            forall|j: int| 0 <= j < i ==> is_single_hop(#[trigger] steps@[j]),
        decreases steps@.len() - i,
    {
        let hop = match &steps[i] {
            ToolArgs::OutStep { .. } => true,
            ToolArgs::OutEStep { .. } => true,
            ToolArgs::InStep { .. } => true,
            ToolArgs::InEStep { .. } => true,
            _ => false,
        };
        if !hop {
            return false;
        }
        i = i + 1;
    }
    true
}

impl McpBackend {
    /// Dispatches a step to the scan or filter that carries it out. The
    /// session is only read.
    pub fn call(&self, connection: &MCPConnection, args: &ToolArgs) -> (r: Result<
        Vec<TraversalVal>,
        GraphError,
    >)
        ensures
            result_view(r) == call_result(
                self.db,
                connection.accepting(),
                views(connection.items()),
                *args,
            ),
            !connection.accepting() ==> r is Err && r->Err_0 == GraphError::SessionClosed,
            r is Ok && (!(args is FilterItems) || connection.items().len() <= RESULT_CAP)
                ==> r->Ok_0@.len() <= RESULT_CAP,
    {
        if !connection.open {
            return Err(GraphError::SessionClosed);
        }
        proof {
            if !(args is FilterItems) || connection.items().len() <= RESULT_CAP {
                lemma_step_bounded(self.db, views(connection.items()), *args);
            }
        }
        match args {
            ToolArgs::OutStep { edge_label, edge_type } => self.out_step(
                connection,
                edge_label.as_str(),
                edge_type,
            ),
            ToolArgs::OutEStep { edge_label } => self.out_e_step(connection, edge_label.as_str()),
            ToolArgs::InStep { edge_label, edge_type } => self.in_step(
                connection,
                edge_label.as_str(),
                edge_type,
            ),
            ToolArgs::InEStep { edge_label } => self.in_e_step(connection, edge_label.as_str()),
            ToolArgs::NFromType { node_type } => self.n_from_type(node_type),
            ToolArgs::EFromType { edge_type } => self.e_from_type(edge_type),
            ToolArgs::FilterItems { properties, filter_traversals } => self.filter_items(
                connection,
                properties,
                filter_traversals,
            ),
        }
    }

    /// Carries a step out on the session: on success the working set is
    /// replaced by the result, on failure the session stays as it was.
    pub fn advance(&self, connection: &mut MCPConnection, args: &ToolArgs) -> (r: Result<
        (),
        GraphError,
    >)
        ensures
            final(connection).accepting() == old(connection).accepting(),
            match r {
                Ok(_) => Ok::<Seq<ElementView>, GraphError>(views(final(connection).items()))
                    == call_result(
                    self.db,
                    old(connection).accepting(),
                    views(old(connection).items()),
                    *args,
                ),
                Err(e) => *final(connection) == *old(connection) && Err::<
                    Seq<ElementView>,
                    GraphError,
                >(e) == call_result(
                    self.db,
                    old(connection).accepting(),
                    views(old(connection).items()),
                    *args,
                ),
            },
            !old(connection).accepting() ==> r is Err && r->Err_0 == GraphError::SessionClosed,
            r is Ok && (!(args is FilterItems) || old(connection).items().len() <= RESULT_CAP)
                ==> final(connection).items().len() <= RESULT_CAP,
            views(final(connection).items()) == after_step(
                self.db,
                old(connection).accepting(),
                views(old(connection).items()),
                *args,
            ),
    {
        match self.call(connection, args) {
            Ok(next) => {
                connection.iter = next;
                Ok(())
            },
            Err(e) => Err(e),
        }
    }

    /// Carries the steps out in order, each on what the one before it left. A
    /// rejected step leaves the working set as it was, and the steps after it
    /// are still tried. Hands back how many steps were carried out.
    pub fn replay(&self, connection: &mut MCPConnection, steps: &Vec<ToolArgs>) -> (done: usize)
        ensures
            final(connection).accepting() == old(connection).accepting(),
            views(final(connection).items()) == after_steps(
                self.db,
                old(connection).accepting(),
                views(old(connection).items()),
                steps@,
            ),
            done == carried_out(
                self.db,
                old(connection).accepting(),
                views(old(connection).items()),
                steps@,
            ),
    {
        let ghost open = connection.accepting();
        let ghost start = views(connection.items());
        let mut done: usize = 0;
        let mut i: usize = 0;
        proof {
            assert(steps@.take(0) =~= Seq::<ToolArgs>::empty());
        }
        while i < steps.len()
            invariant
                i <= steps@.len(),
                done <= i,
                connection.accepting() == open,
                views(connection.items()) == after_steps(self.db, open, start, steps@.take(i as int)),
                done == carried_out(self.db, open, start, steps@.take(i as int)),
            decreases steps@.len() - i,
        {
            proof {
                assert(steps@.take(i + 1).drop_last() =~= steps@.take(i as int));
                assert(steps@.take(i + 1).last() == steps@[i as int]);
            }
            match self.advance(connection, &steps[i]) {
                Ok(_) => {
                    done = done + 1;
                },
                Err(_) => {},
            }
            i = i + 1;
        }
        proof {
            assert(steps@.take(i as int) =~= steps@);
        }
        done
    }

    /// From every element of the working set, the nodes or vector elements at
    /// the far end of its outgoing edges under `edge_label`.
    pub fn out_step(&self, connection: &MCPConnection, edge_label: &str, edge_type: &EdgeType) -> (r:
        Result<Vec<TraversalVal>, GraphError>)
        ensures
            result_view(r) == hop_result(
                self.db,
                Direction::Out,
                target_of(*edge_type),
                edge_label@,
                views(connection.items()),
                RESULT_CAP as nat,
            ),
    {
        let target = match edge_type {
            EdgeType::Node => Target::Node,
            EdgeType::Vec => Target::Vector,
        };
        expand(&self.db, Direction::Out, target, edge_label, &connection.iter, RESULT_CAP)
    }

    /// From every element of the working set, its outgoing edges under
    /// `edge_label`.
    pub fn out_e_step(&self, connection: &MCPConnection, edge_label: &str) -> (r: Result<
        Vec<TraversalVal>,
        GraphError,
    >)
        ensures
            result_view(r) == hop_result(
                self.db,
                Direction::Out,
                Target::Edge,
                edge_label@,
                views(connection.items()),
                RESULT_CAP as nat,
            ),
    {
        expand(&self.db, Direction::Out, Target::Edge, edge_label, &connection.iter, RESULT_CAP)
    }

    /// From every element of the working set, the nodes or vector elements at
    /// the near end of its incoming edges under `edge_label`.
    pub fn in_step(&self, connection: &MCPConnection, edge_label: &str, edge_type: &EdgeType) -> (r:
        Result<Vec<TraversalVal>, GraphError>)
        ensures
            result_view(r) == hop_result(
                self.db,
                Direction::In,
                target_of(*edge_type),
                edge_label@,
                views(connection.items()),
                RESULT_CAP as nat,
            ),
    {
        let target = match edge_type {
            EdgeType::Node => Target::Node,
            EdgeType::Vec => Target::Vector,
        };
        expand(&self.db, Direction::In, target, edge_label, &connection.iter, RESULT_CAP)
    }

    /// From every element of the working set, its incoming edges under
    /// `edge_label`.
    pub fn in_e_step(&self, connection: &MCPConnection, edge_label: &str) -> (r: Result<
        Vec<TraversalVal>,
        GraphError,
    >)
        ensures
            result_view(r) == hop_result(
                self.db,
                Direction::In,
                Target::Edge,
                edge_label@,
                views(connection.items()),
                RESULT_CAP as nat,
            ),
    {
        expand(&self.db, Direction::In, Target::Edge, edge_label, &connection.iter, RESULT_CAP)
    }

    /// The nodes of one type, whatever the working set holds.
    pub fn n_from_type(&self, node_type: &String) -> (r: Result<Vec<TraversalVal>, GraphError>)
        ensures
            result_view(r) == collect(
                type_items(self.db.nodes@, ElementKind::Node, node_type@),
                RESULT_CAP as nat,
            ),
    {
        nodes_by_type(&self.db, node_type)
    }

    /// The edges of one type, whatever the working set holds.
    pub fn e_from_type(&self, edge_type: &String) -> (r: Result<Vec<TraversalVal>, GraphError>)
        ensures
            result_view(r) == collect(
                type_items(self.db.edges@, ElementKind::Edge, edge_type@),
                RESULT_CAP as nat,
            ),
    {
        edges_by_type(&self.db, edge_type)
    }

    /// Whether any of the nested hops yields a result from `item` alone.
    pub fn any_hop_exists(&self, item: &TraversalVal, steps: &Vec<ToolArgs>) -> (r: Result<
        bool,
        GraphError,
    >)
        ensures
            r == any_from(self.db, item@, steps@, 0),
    {
        let mut single: Vec<TraversalVal> = Vec::new();
        single.push(item.duplicate());
        let from = G::new_from(&self.db, single);
        proof {
            assert(views(from.items@) =~= seq![item@]);
        }
        let mut i: usize = 0;
        while i < steps.len()
            invariant
                i <= steps@.len(),
                from.storage == &self.db,
                views(from.items@) == seq![item@],
                any_from(self.db, item@, steps@, 0) == any_from(self.db, item@, steps@, i as int),
            decreases steps@.len() - i,
        {
            let verdict = match &steps[i] {
                ToolArgs::OutStep { edge_label, edge_type } => {
                    let target = match edge_type {
                        EdgeType::Node => Target::Node,
                        EdgeType::Vec => Target::Vector,
                    };
                    from.probe(Direction::Out, target, edge_label.as_str())
                },
                ToolArgs::OutEStep { edge_label } => from.probe(
                    Direction::Out,
                    Target::Edge,
                    edge_label.as_str(),
                ),
                ToolArgs::InStep { edge_label, edge_type } => {
                    let target = match edge_type {
                        EdgeType::Node => Target::Node,
                        EdgeType::Vec => Target::Vector,
                    };
                    from.probe(Direction::In, target, edge_label.as_str())
                },
                ToolArgs::InEStep { edge_label } => from.probe(
                    Direction::In,
                    Target::Edge,
                    edge_label.as_str(),
                ),
                _ => Err(GraphError::UnsupportedStep),
            };
            assert(verdict == probe_one(self.db, item@, steps@[i as int]));
            match verdict {
                Ok(false) => {},
                decided => {
                    return decided;
                },
            }
            i = i + 1;
        }
        Ok(false)
    }

    /// Whether the filter keeps `item`.
    pub fn verdict_on(
        &self,
        item: &TraversalVal,
        properties: &Option<Vec<(String, String)>>,
        filter_traversals: &Option<Vec<ToolArgs>>,
    ) -> (r: Result<bool, GraphError>)
        ensures
            r == keeps(
                self.db,
                item@,
                constraints_view(*properties),
                nested_view(*filter_traversals),
            ),
    {
        proof {
            reveal(keeps);
        }
        let passes = match properties {
            Some(pairs) => meets(item, pairs),
            None => true,
        };
        if !passes {
            Ok(false)
        } else {
            match filter_traversals {
                Some(steps) => self.any_hop_exists(item, steps),
                None => Ok(true),
            }
        }
    }

    /// Keeps the elements of the working set that meet every property
    /// constraint and from which some nested hop yields a result. A list that
    /// is not given does not constrain.
    pub fn filter_items(
        &self,
        connection: &MCPConnection,
        properties: &Option<Vec<(String, String)>>,
        filter_traversals: &Option<Vec<ToolArgs>>,
    ) -> (r: Result<Vec<TraversalVal>, GraphError>)
        ensures
            result_view(r) == filter_result(
                self.db,
                views(connection.items()),
                constraints_view(*properties),
                nested_view(*filter_traversals),
            ),
    {
        match filter_traversals {
            Some(steps) => {
                if !only_hops(steps) {
                    return Err(GraphError::UnsupportedStep);
                }
            },
            None => {},
        }
        let ghost ws = views(connection.items());
        let ghost constraints = constraints_view(*properties);
        let ghost nested = nested_view(*filter_traversals);
        let mut out: Vec<TraversalVal> = Vec::new();
        proof {
            assert(ws.take(0) =~= Seq::<ElementView>::empty());
            assert(views(out@) =~= Seq::<ElementView>::empty());
        }
        let mut i: usize = 0;
        while i < connection.iter.len()
            invariant
                i <= connection.iter@.len(),
                ws == views(connection.items()),
                constraints == constraints_view(*properties),
                nested == nested_view(*filter_traversals),
                nested is Some ==> all_single_hop(nested->Some_0),
                filtered(self.db, ws.take(i as int), constraints, nested) == Ok::<
                    Seq<ElementView>,
                    GraphError,
                >(views(out@)),
            decreases connection.iter@.len() - i,
        {
            let item = &connection.iter[i];
            let ghost shown = views(out@);
            proof {
                assert(ws.take(i + 1).drop_last() =~= ws.take(i as int));
                assert(ws.take(i + 1).last() == item@);
            }
            let verdict = self.verdict_on(item, properties, filter_traversals);
            match verdict {
                Ok(true) => {
                    out.push(item.duplicate());
                    proof {
                        assert(views(out@) =~= shown.push(item@));
                    }
                },
                Ok(false) => {},
                Err(e) => {
                    proof {
                        lemma_filter_fails(self.db, ws, constraints, nested, i + 1);
                    }
                    return Err(e);
                },
            }
            i = i + 1;
        }
        proof {
            assert(ws.take(i as int) =~= ws);
        }
        Ok(out)
    }
}

} // verus!
