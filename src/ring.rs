//! The fixed ring of anchor nodes.
use vstd::prelude::*;
use crate::geometry::Point;
use crate::scale::{MajorScale, chromatic_of};

verus! {

/// Number of nodes on the ring.
pub const NODE_COUNT: u32 = 7;

/// Distance of every node from the origin, in thousandths of a world unit.
pub const DISTANCE_FROM_ORIGIN: i32 = 300_000;

/// An anchor point of the ring, with the pitch it sounds.
#[derive(Clone, Copy, Debug, PartialEq, Eq, Structural)]
pub struct Node {
    pub index: u32,
    pub position: Point,
    /// Semitones above A4.
    pub chromatic: u32,
}

/// Why a ring could not be built.
#[derive(Clone, Copy, Debug, PartialEq, Eq, Structural)]
pub enum RingError {
    /// A ring needs at least one node to select a target from.
    Empty,
}

/// The ring: nodes ordered by index, fixed once built.
pub struct Nodes {
    node_vec: Vec<Node>,
}

/// The node that stands at `index` with the given position.
pub open spec fn node_at(index: int, position: Point) -> Node {
    Node { index: index as u32, position, chromatic: chromatic_of(index as nat) as u32 }
}

impl View for Nodes {
    type V = Seq<Node>;

    closed spec fn view(&self) -> Seq<Node> {
        self.node_vec@
    }
}

impl Nodes {
    /// At least one node, each at its own index with the pitch of that index.
    pub open spec fn wf(&self) -> bool {
        &&& self@.len() > 0
        &&& self@.len() <= u32::MAX
        &&& forall|i: int|
            0 <= i < self@.len() ==> #[trigger] self@[i] == node_at(i, self@[i].position)
    }

    /// Builds the ring from the node positions, in index order: node `i`
    /// stands at `positions[i]` and sounds the scale degree of `i`.
    /// An empty list is refused.
    pub fn build(positions: &Vec<Point>) -> (r: Result<Nodes, RingError>)
        requires
            positions@.len() <= u32::MAX,
        ensures
            positions@.len() == 0 <==> r is Err,
            r matches Err(e) ==> e == RingError::Empty,
            r matches Ok(n) ==> n.wf() && n@.len() == positions@.len() && forall|i: int|
                0 <= i < positions@.len() ==> #[trigger] n@[i] == node_at(i, positions@[i]),
    {
        if positions.len() == 0 {
            return Err(RingError::Empty);
        }
        let mut node_vec: Vec<Node> = Vec::new();
        let mut i: usize = 0;
        while i < positions.len()
            invariant
                i <= positions@.len() <= u32::MAX,
                node_vec@.len() == i,
                forall|j: int| 0 <= j < i ==> #[trigger] node_vec@[j] == node_at(j, positions@[j]),
            decreases positions@.len() - i,
        {
            let chromatic = MajorScale::to_chromatic(i as u32);
            node_vec.push(Node { index: i as u32, position: positions[i], chromatic });
            i = i + 1;
        }
        Ok(Nodes { node_vec })
    }

    /// Number of nodes.
    pub fn len(&self) -> (r: usize)
        ensures
            r == self@.len(),
    {
        self.node_vec.len()
    }

    /// The node at `index`.
    pub fn get(&self, index: usize) -> (r: &Node)
        requires
            index < self@.len(),
        ensures
            *r == self@[index as int],
    {
        &self.node_vec[index]
    }
}

} // verus!
