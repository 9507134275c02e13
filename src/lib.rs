//! A chaos-game note generator: a ring of anchor nodes, each carrying a pitch
//! of the major scale, and a trace point that jumps a fixed fraction of the way
//! toward a randomly chosen node at every paced step, sounding that node's pitch.
//!
//! Positions are fixed-point: one unit is a thousandth of a world unit, the
//! precision to which node positions are rounded. Pitches are kept as the
//! chromatic offset, in semitones above A4 (440 Hz).
pub mod engine;
pub mod geometry;
pub mod history;
pub mod pacing;
pub mod ring;
pub mod scale;

pub use engine::{R_VALUE_DEN, R_VALUE_NUM, add_cgr, step};
pub use geometry::Point;
pub use history::{Note, NoteHistory};
pub use pacing::{
    MainState, NOTE_DURATION_NANOS, PointTimer, SEQUENCE_INTERVAL_NANOS, SequenceTimer,
    TRAIL_LIFETIME_NANOS,
};
pub use ring::{DISTANCE_FROM_ORIGIN, NODE_COUNT, Node, Nodes, RingError};
pub use scale::MajorScale;
