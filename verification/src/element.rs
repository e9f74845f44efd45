//! Graph elements: what a traversal step hands back.

use vstd::prelude::*;

verus! {

/// Whether the far end of an edge is a graph node or a vector element.
#[derive(Clone, Copy, Debug, PartialEq, Eq, Structural)]
pub enum EdgeType {
    Node,
    Vec,
}

/// The three sorts of element a traversal can yield.
#[derive(Clone, Copy, Debug, PartialEq, Eq, Structural)]
pub enum ElementKind {
    Node,
    Edge,
    VectorElement,
}

/// Why a step was not carried out.
#[derive(Clone, Copy, Debug, PartialEq, Eq, Structural)]
pub enum GraphError {
    /// A stored record or index entry could not be decoded.
    StorageDecodeError,
    /// A step descriptor stands where its variant is not allowed.
    UnsupportedStep,
    /// The session had been closed before the step arrived.
    SessionClosed,
}

impl GraphError {
    /// What the error says to the caller.
    pub open spec fn text(self) -> Seq<char> {
        match self {
            GraphError::StorageDecodeError => "a stored record could not be decoded"@,
            GraphError::UnsupportedStep => "the step is not supported where it stands"@,
            GraphError::SessionClosed => "the session is closed"@,
        }
    }

    /// A description of the failure for the caller.
    pub fn message(&self) -> (s: String)
        ensures
            s@ == self.text(),
    {
        match self {
            GraphError::StorageDecodeError => "a stored record could not be decoded".to_owned(),
            GraphError::UnsupportedStep => "the step is not supported where it stands".to_owned(),
            GraphError::SessionClosed => "the session is closed".to_owned(),
        }
    }
}

/// Properties as the contracts see them: (name, value) pairs in stored order.
pub type PropertiesView = Seq<(Seq<char>, Seq<char>)>;

/// The decoded body of a stored node, edge or vector element.
#[derive(Debug)]
pub struct RecordData {
    pub label: String,
    pub properties: Vec<(String, String)>,
}

/// A traversal result: a node, an edge or a vector element.
#[derive(Debug)]
pub struct TraversalVal {
    pub kind: ElementKind,
    pub id: u128,
    pub data: RecordData,
}

/// A traversal result as the contracts see it.
pub struct ElementView {
    pub kind: ElementKind,
    pub id: u128,
    pub label: Seq<char>,
    pub properties: PropertiesView,
}

/// The (name, value) pairs of a property list, each string by its characters.
pub open spec fn pairs_view(pairs: Seq<(String, String)>) -> PropertiesView {
    Seq::new(pairs.len(), |i: int| (pairs[i].0@, pairs[i].1@))
}

/// The value under `key` in the pairs from position `from` on: that of the
/// first pair with this name, if there is one.
pub open spec fn value_from(props: PropertiesView, key: Seq<char>, from: int) -> Option<Seq<char>>
    decreases props.len() - from,
{
    if from < 0 || from >= props.len() {
        None
    } else if props[from].0 == key {
        Some(props[from].1)
    } else {
        value_from(props, key, from + 1)
    }
}

/// The value of the property named `key`, if the element has it.
pub open spec fn property_value(props: PropertiesView, key: Seq<char>) -> Option<Seq<char>> {
    value_from(props, key, 0)
}

/// The element that a stored body gives under an identifier.
pub open spec fn element_of(kind: ElementKind, id: u128, data: RecordData) -> ElementView {
    ElementView { kind, id, label: data.label@, properties: pairs_view(data.properties@) }
}

/// The views of a sequence of elements, in order.
pub open spec fn views(items: Seq<TraversalVal>) -> Seq<ElementView> {
    Seq::new(items.len(), |i: int| items[i]@)
}

impl View for TraversalVal {
    type V = ElementView;

    open spec fn view(&self) -> ElementView {
        element_of(self.kind, self.id, self.data)
    }
}

impl RecordData {
    /// A copy with the same label and the same properties in the same order.
    pub fn duplicate(&self) -> (r: RecordData)
        ensures
            r.label@ == self.label@,
            pairs_view(r.properties@) == pairs_view(self.properties@),
    {
        let mut properties: Vec<(String, String)> = Vec::new();
        let mut i: usize = 0;
        while i < self.properties.len()
            invariant
                i <= self.properties@.len(),
                properties@.len() == i,
                forall|j: int|
                    0 <= j < i ==> properties@[j].0@ == self.properties@[j].0@ && properties@[j].1@
                        == self.properties@[j].1@,
            decreases self.properties@.len() - i,
        {
            let name = self.properties[i].0.clone();
            let value = self.properties[i].1.clone();
            properties.push((name, value));
            i = i + 1;
        }
        assert(pairs_view(properties@) =~= pairs_view(self.properties@));
        RecordData { label: self.label.clone(), properties }
    }
}

impl TraversalVal {
    /// The element's identifier.
    pub fn id(&self) -> (id: u128)
        ensures
            id == self@.id,
    {
        self.id
    }

    /// A copy that the contracts cannot tell from the element.
    pub fn duplicate(&self) -> (r: TraversalVal)
        ensures
            r@ == self@,
    {
        TraversalVal { kind: self.kind, id: self.id, data: self.data.duplicate() }
    }

    /// The value stored under the property `key`, or `None` where the element
    /// has no such property.
    pub fn check_property(&self, key: &String) -> (r: Option<&String>)
        ensures
            match r {
                Some(v) => property_value(self@.properties, key@) == Some(v@),
                None => property_value(self@.properties, key@).is_none(),
            },
    {
        let ghost props = self@.properties;
        let mut i: usize = 0;
        while i < self.data.properties.len()
            invariant
                i <= self.data.properties@.len(),
                props == self@.properties,
                props.len() == self.data.properties@.len(),
                value_from(props, key@, 0) == value_from(props, key@, i as int),
            decreases self.data.properties@.len() - i,
        {
            assert(props[i as int] == (self.data.properties@[i as int].0@, self.data.properties@[i as int].1@));
            if self.data.properties[i].0 == *key {
                return Some(&self.data.properties[i].1);
            }
            i = i + 1;
        }
        None
    }
}

} // verus!
