use chaos_notes::{
    add_cgr, step, MainState, MajorScale, NoteHistory, Nodes, Point, PointTimer, RingError,
    SequenceTimer, SEQUENCE_INTERVAL_NANOS,
};

fn p(x: i32, y: i32) -> Point {
    Point { x, y }
}

/// The three-node ring of radius 300, in thousandths, rounded as the app rounds.
fn triangle() -> Nodes {
    Nodes::build(&vec![p(300_000, 0), p(-150_000, 259_808), p(-150_000, -259_808)]).unwrap()
}

#[test]
fn first_step_toward_second_node_of_triangle() {
    let nodes = triangle();
    let mut history = NoteHistory::new();
    let note = step(&nodes, &mut history, 1);
    assert_eq!(note.xy, p(-75_000, 129_904));
    assert_eq!(note.chromatic, 2);
    assert_eq!(history.len(), 1);
    assert_eq!(*history.get(0), note);
}

#[test]
fn repeated_target_halves_distance() {
    let nodes = triangle();
    let mut history = NoteHistory::new();
    let target = nodes.get(0).position;
    let mut expected: i32 = 300_000;
    for _ in 0..5 {
        let note = step(&nodes, &mut history, 0);
        expected /= 2;
        assert_eq!(target.x - note.xy.x, expected);
        assert_eq!(note.xy.y, 0);
    }
    assert_eq!(history.len(), 5);
}

#[test]
fn odd_offsets_round_toward_the_origin_side() {
    let nodes = Nodes::build(&vec![p(3, -3)]).unwrap();
    let mut history = NoteHistory::new();
    let a = step(&nodes, &mut history, 0);
    assert_eq!(a.xy, p(1, -1));
    let b = step(&nodes, &mut history, 0);
    assert_eq!(b.xy, p(2, -2));
    let c = step(&nodes, &mut history, 0);
    assert_eq!(c.xy, p(2, -2));
}

#[test]
fn toward_with_other_fractions() {
    assert_eq!(p(0, 0).toward(p(900, -900), 1, 3), p(300, -300));
    assert_eq!(p(0, 0).toward(p(1000, -1000), 1, 3), p(333, -333));
    assert_eq!(p(100, 100).toward(p(100, 100), 1, 2), p(100, 100));
    assert_eq!(p(i32::MIN, i32::MAX).toward(p(i32::MAX, i32::MIN), 1, 2), p(-1, 0));
}

#[test]
fn contraction_by_one_minus_ratio() {
    let o = p(-4000, 1200);
    let t = p(2000, -600);
    let n = o.toward(t, 1, 4);
    assert_eq!(n, p(-2500, 750));
    assert_eq!(t.x - n.x, 3 * (t.x - o.x) / 4);
    assert_eq!(t.y - n.y, 3 * (t.y - o.y) / 4);
}

#[test]
fn scale_table_and_wrap() {
    let expected = [0, 2, 4, 5, 7, 9, 11];
    for i in 0..7u32 {
        assert_eq!(MajorScale::to_chromatic(i), expected[i as usize]);
    }
    assert_eq!(MajorScale::to_chromatic(7), 0);
    for i in 0..50u32 {
        assert_eq!(MajorScale::to_chromatic(i), MajorScale::to_chromatic(i + 7));
    }
    assert_eq!(MajorScale::to_chromatic(u32::MAX), MajorScale::to_chromatic(u32::MAX % 7));
}

#[test]
fn ring_nodes_carry_index_and_pitch() {
    let positions: Vec<Point> = (0..9).map(|i| p(i, -i)).collect();
    let nodes = Nodes::build(&positions).unwrap();
    assert_eq!(nodes.len(), 9);
    for i in 0..9usize {
        let n = nodes.get(i);
        assert_eq!(n.index, i as u32);
        assert_eq!(n.position, positions[i]);
        assert_eq!(n.chromatic, MajorScale::to_chromatic(i as u32));
    }
    assert_eq!(nodes.get(8).chromatic, 2);
}

#[test]
fn empty_ring_is_refused() {
    assert!(matches!(Nodes::build(&Vec::new()), Err(RingError::Empty)));
}

#[test]
fn history_starts_empty_at_origin() {
    let history = NoteHistory::new();
    assert_eq!(history.len(), 0);
    assert!(history.last().is_none());
    assert_eq!(history.position(), Point::origin());
}

#[test]
fn sequence_timer_restarts_at_interval() {
    let mut timer = SequenceTimer::new(100);
    assert!(!timer.tick(60));
    assert_eq!(timer.elapsed(), 60);
    assert!(timer.tick(40));
    assert_eq!(timer.elapsed(), 0);
    assert!(timer.tick(1_000));
    assert_eq!(timer.elapsed(), 0);
    assert!(!timer.tick(99));
    assert!(timer.tick(u64::MAX));
}

#[test]
fn point_timer_expires_once_lifetime_reached() {
    let mut timer = PointTimer::new(10);
    assert!(!timer.tick(4));
    assert!(!timer.tick(5));
    assert!(timer.tick(1));
    assert!(timer.tick(0));
}

#[test]
fn pacer_steps_once_per_interval() {
    let mut state = MainState::ReadyToAddNote;
    let mut timer = SequenceTimer::new(100);
    let deltas: [u64; 12] = [16, 16, 16, 16, 16, 16, 16, 16, 500, 10, 30, 70];
    let fired: Vec<bool> = deltas.iter().map(|d| state.advance(&mut timer, *d)).collect();
    assert_eq!(
        fired,
        vec![true, false, false, false, false, false, false, false, true, false, false, false]
    );
    assert_eq!(state, MainState::ReadyToAddNote);
}

#[test]
fn add_cgr_paces_and_grows_history() {
    let nodes = triangle();
    let mut history = NoteHistory::new();
    let mut state = MainState::ReadyToAddNote;
    let mut timer = SequenceTimer::new(SEQUENCE_INTERVAL_NANOS);
    let frame: u64 = 50_000_000;
    let mut steps = 0;
    for tick in 0..40 {
        let before: Vec<_> = (0..history.len()).map(|i| *history.get(i)).collect();
        let origin = history.position();
        let was_ready = state == MainState::ReadyToAddNote;
        let out = add_cgr(&mut state, &mut timer, &nodes, &mut history, frame);
        assert_eq!(out.is_some(), was_ready, "tick {}", tick);
        match out {
            Some(note) => {
                steps += 1;
                assert_eq!(history.len(), before.len() + 1);
                assert_eq!(*history.last().unwrap(), note);
                let hit = (0..nodes.len()).any(|i| {
                    let n = nodes.get(i);
                    note.chromatic == n.chromatic && note.xy == origin.toward(n.position, 1, 2)
                });
                assert!(hit);
            }
            None => assert_eq!(history.len(), before.len()),
        }
        for (i, n) in before.iter().enumerate() {
            assert_eq!(history.get(i), n);
        }
    }
    // One step, then four frames of 50 ms to reach the 200 ms interval.
    assert_eq!(steps, 8);
}
