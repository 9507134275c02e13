//! Notes and the append-only history of generated notes.
use vstd::prelude::*;
use crate::geometry::Point;

verus! {

/// A generated note: where the trace point landed and the pitch it sounds.
#[derive(Clone, Copy, Debug, PartialEq, Eq, Structural)]
pub struct Note {
    pub xy: Point,
    /// Semitones above A4.
    pub chromatic: u32,
}

/// The notes generated so far, oldest first. Notes are only ever appended.
pub struct NoteHistory {
    node_vec: Vec<Note>,
}

impl View for NoteHistory {
    type V = Seq<Note>;

    closed spec fn view(&self) -> Seq<Note> {
        self.node_vec@
    }
}

/// Where the trace point stands: the last note's position, or the origin
/// before any note.
pub open spec fn current_position(h: Seq<Note>) -> Point {
    if h.len() == 0 {
        Point { x: 0, y: 0 }
    } else {
        h.last().xy
    }
}

impl NoteHistory {
    /// An empty history.
    pub fn new() -> (r: NoteHistory)
        ensures
            r@ == Seq::<Note>::empty(),
    {
        NoteHistory { node_vec: Vec::new() }
    }

    /// Number of notes generated.
    pub fn len(&self) -> (r: usize)
        ensures
            r == self@.len(),
    {
        self.node_vec.len()
    }

    /// The note at `index`, in generation order.
    pub fn get(&self, index: usize) -> (r: &Note)
        requires
            index < self@.len(),
        ensures
            *r == self@[index as int],
    {
        &self.node_vec[index]
    }

    /// The most recent note, if any.
    pub fn last(&self) -> (r: Option<&Note>)
        ensures
            self@.len() == 0 <==> r is None,
            r matches Some(n) ==> *n == self@.last(),
    {
        self.node_vec.last()
    }

    /// Where the trace point stands now.
    pub fn position(&self) -> (r: Point)
        ensures
            r == current_position(self@),
    {
        let n = self.node_vec.len();
        if n == 0 {
            Point::origin()
        } else {
            self.node_vec[n - 1].xy
        }
    }

    /// Appends a note; earlier notes are kept as they are.
    pub fn push(&mut self, note: Note)
        ensures
            final(self)@ == old(self)@.push(note),
    {
        self.node_vec.push(note);
    }
}

} // verus!
