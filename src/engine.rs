//! The chaos-game stepper and the paced tick that drives it.
use vstd::prelude::*;
use rand::Rng;
use vstd::arithmetic::div_mod::{lemma_div_denominator, lemma_div_plus_one};
use vstd::arithmetic::power2::{pow2, lemma_pow2_pos, lemma_pow2_unfold};
use crate::geometry::{Point, abs, interpolate, lemma_step_bounds};
use crate::history::{Note, NoteHistory, current_position};
use crate::pacing::{MainState, SequenceTimer, pacer_next};
use crate::ring::{Node, Nodes};

verus! {

/// Numerator of the fraction of the distance to the target covered per step.
pub const R_VALUE_NUM: u32 = 1;

/// Denominator of the fraction of the distance to the target covered per step.
pub const R_VALUE_DEN: u32 = 2;

/// The note generated toward `target`: the trace point moves the fraction
/// `R_VALUE_NUM / R_VALUE_DEN` of the way from where it stands to the target,
/// and sounds the target's pitch.
pub open spec fn next_note(nodes: Seq<Node>, history: Seq<Note>, target: int) -> Note {
    Note {
        xy: interpolate(
            current_position(history),
            nodes[target].position,
            R_VALUE_NUM as int,
            R_VALUE_DEN as int,
        ),
        chromatic: nodes[target].chromatic,
    }
}

/// Relies on rand's `thread_rng().gen_range(0..n)`: an index drawn uniformly
/// below `n`. It panics on an empty range, hence `n > 0`.
#[verifier::external_body]
fn random_index(n: usize) -> (r: usize)
    requires
        n > 0,
    ensures
        r < n,
{
    rand::thread_rng().gen_range(0..n)
}

/// Takes one step toward the node at `target`: computes the next note,
/// appends it to the history and returns it.
pub fn step(nodes: &Nodes, history: &mut NoteHistory, target: usize) -> (r: Note)
    requires
        target < nodes@.len(),
    ensures
        r == next_note(nodes@, old(history)@, target as int),
        final(history)@ == old(history)@.push(r),
{
    let node = nodes.get(target);
    let origin = history.position();
    let note = Note { xy: origin.toward(node.position, R_VALUE_NUM, R_VALUE_DEN), chromatic: node.chromatic };
    history.push(note);
    note
}

/// One scheduling tick of `delta` nanoseconds. When the pacer is ready, a node
/// is drawn at random, a step is taken toward it and the new note is returned;
/// otherwise the pacer's timer advances and nothing is generated.
pub fn add_cgr(
    state: &mut MainState,
    timer: &mut SequenceTimer,
    nodes: &Nodes,
    history: &mut NoteHistory,
    delta: u64,
) -> (r: Option<Note>)
    requires
        nodes.wf(),
        old(timer).wf(),
    ensures
        final(timer).wf(),
        final(timer).interval_spec() == old(timer).interval_spec(),
        ({
            let (s, e, fired, _ended) = pacer_next(
                *old(state),
                old(timer).elapsed_spec(),
                old(timer).interval_spec(),
                delta as nat,
            );
            &&& *final(state) == s
            &&& final(timer).elapsed_spec() == e
            &&& r is Some <==> fired
        }),
        r is Some <==> *old(state) == MainState::ReadyToAddNote,
        r matches Some(n) ==> {
            &&& exists|i: int|
                0 <= i < nodes@.len() && n == #[trigger] next_note(nodes@, old(history)@, i)
            &&& final(history)@ == old(history)@.push(n)
        },
        r is None ==> final(history)@ == old(history)@,
{
    if state.advance(timer, delta) {
        let target = random_index(nodes.len());
        let note = step(nodes, history, target);
        Some(note)
    } else {
        None
    }
}


/// The history after `k` steps that all draw the node at `target`.
pub open spec fn repeat_target(nodes: Seq<Node>, history: Seq<Note>, target: int, k: nat) -> Seq<Note>
    decreases k,
{
    if k == 0 {
        history
    } else {
        let h = repeat_target(nodes, history, target, (k - 1) as nat);
        h.push(next_note(nodes, h, target))
    }
}

/// Where `k` steps toward `t` lead from `o`.
pub open spec fn approach(o: Point, t: Point, k: nat) -> Point
    decreases k,
{
    if k == 0 {
        o
    } else {
        interpolate(approach(o, t, (k - 1) as nat), t, R_VALUE_NUM as int, R_VALUE_DEN as int)
    }
}

/// `a / m` rounded up, for positive `m`.
pub open spec fn ceil_div(a: int, m: int) -> int {
    (a + m - 1) / m
}

proof fn lemma_ceil_half(a: int, m: int)
    requires
        a >= 0,
        m > 0,
    ensures
        ceil_div(a, m) - ceil_div(a, m) / 2 == ceil_div(a, 2 * m),
{
    let c = ceil_div(a, m);
    assert(c - c / 2 == (c + 1) / 2);
    lemma_div_plus_one(a + m - 1, m);
    assert(c + 1 == (a + 2 * m - 1) / m);
    lemma_div_denominator(a + 2 * m - 1, m, 2);
    assert(m * 2 == 2 * m);
}

/// Each coordinate's offset to the target after `k` steps toward it is the
/// first offset divided by `2^k`, rounded up.
proof fn lemma_approach_halves(o: Point, t: Point, k: nat)
    ensures
        abs(t.x - approach(o, t, k).x) == ceil_div(abs(t.x - o.x), pow2(k) as int),
        abs(t.y - approach(o, t, k).y) == ceil_div(abs(t.y - o.y), pow2(k) as int),
    decreases k,
{
    lemma_pow2_pos(k);
    if k == 0 {
        assert(pow2(0) == 1) by {
            vstd::arithmetic::power2::lemma2_to64();
        }
    } else {
        let k1 = (k - 1) as nat;
        lemma_approach_halves(o, t, k1);
        lemma_pow2_unfold(k);
        lemma_pow2_pos(k1);
        let p = approach(o, t, k1);
        lemma_step_bounds(p.x as int, t.x as int, 1, 2);
        lemma_step_bounds(p.y as int, t.y as int, 1, 2);
        lemma_ceil_half(abs(t.x - o.x), pow2(k1) as int);
        lemma_ceil_half(abs(t.y - o.y), pow2(k1) as int);
    }
}

/// Drawing the same node again and again: after `k` steps, `k` notes have
/// been appended, and the trace point's offset to the node along each axis is
/// the starting offset halved `k` times (each halving rounded up to a whole
/// unit), so it converges geometrically onto the node.
pub proof fn lemma_repeated_target_converges(
    nodes: Seq<Node>,
    history: Seq<Note>,
    target: int,
    k: nat,
)
    requires
        0 <= target < nodes.len(),
    ensures
        ({
            let o = current_position(history);
            let t = nodes[target].position;
            let p = current_position(repeat_target(nodes, history, target, k));
            &&& repeat_target(nodes, history, target, k).len() == history.len() + k
            &&& p == approach(o, t, k)
            &&& abs(t.x - p.x) == ceil_div(abs(t.x - o.x), pow2(k) as int)
            &&& abs(t.y - p.y) == ceil_div(abs(t.y - o.y), pow2(k) as int)
        }),
    decreases k,
{
    if k > 0 {
        lemma_repeated_target_converges(nodes, history, target, (k - 1) as nat);
    }
    lemma_approach_halves(current_position(history), nodes[target].position, k);
}

} // verus!
