use curve_track::builder::CurveBuilder;
use curve_track::graph::{CurveEnd, JointConnection, SegmentConnection};
use curve_track::joint::{ExitReading, Joint, JointExit};

fn sc(id: usize, end: CurveEnd) -> SegmentConnection {
    SegmentConnection { id, end }
}

fn single(id: usize, end: CurveEnd) -> JointConnection {
    JointConnection::new(vec![sc(id, end)])
}

fn reading(force: f32, travel: f32) -> ExitReading {
    ExitReading { force: force.to_bits(), travel: travel.to_bits(), sector: 0 }
}

fn unit(from: (f32, f32), to: (f32, f32)) -> (f32, f32) {
    let (x, y) = (to.0 - from.0, to.1 - from.1);
    let len = (x * x + y * y).sqrt();
    (x / len, y / len)
}

fn dot(a: (f32, f32), b: (f32, f32)) -> f32 {
    a.0 * b.0 + a.1 * b.1
}

/// A fork: lines 0 from (20, 20) and 1 from (20, 180) meet at (100, 100),
/// where line 2 leaves towards (200, 100).
fn fork() -> (Joint, [(f32, f32); 3]) {
    let joint = Joint::new(vec![
        single(0, CurveEnd::End),
        single(1, CurveEnd::End),
        single(2, CurveEnd::Start),
    ]);
    let dirs = [
        unit((20.0, 20.0), (100.0, 100.0)),
        unit((20.0, 180.0), (100.0, 100.0)),
        unit((100.0, 100.0), (200.0, 100.0)),
    ];
    (joint, dirs)
}

fn fork_readings(dirs: &[(f32, f32); 3], force: (f32, f32), travel: (f32, f32)) -> Vec<ExitReading> {
    dirs.iter().map(|&d| reading(dot(force, d), dot(travel, d))).collect()
}

#[test]
fn three_way_branch_from_lower_entry_takes_exit() {
    let (j, dirs) = fork();
    let readings = fork_readings(&dirs, (1.0, 0.0), dirs[0]);
    assert_eq!(j.enter(sc(0, CurveEnd::End), &readings), JointExit::Exit(sc(2, CurveEnd::Start)));
}

#[test]
fn three_way_branch_from_upper_entry_takes_exit() {
    let (j, dirs) = fork();
    let readings = fork_readings(&dirs, (1.0, 0.0), dirs[1]);
    assert_eq!(j.enter(sc(1, CurveEnd::End), &readings), JointExit::Exit(sc(2, CurveEnd::Start)));
}

#[test]
fn dead_end_stops() {
    let j = Joint::new(vec![single(0, CurveEnd::End)]);
    let readings = vec![reading(1.0, 1.0)];
    assert_eq!(j.enter(sc(0, CurveEnd::End), &readings), JointExit::DeadEnd);
}

#[test]
fn closed_single_segment_loops_to_its_start() {
    let g = CurveBuilder::new().push(((0.0f32, 0.0f32), (100.0f32, 0.0f32))).build(true);
    assert_eq!(g.joints.len(), 1);
    assert_eq!(g.segments[0].start_joint, 0);
    assert_eq!(g.segments[0].end_joint, 0);
    let j = &g.joints[0];
    // zero force; both connections point along +x, as does the travel
    let readings = vec![reading(0.0, 1.0), reading(0.0, 1.0)];
    assert_eq!(j.enter(sc(0, CurveEnd::End), &readings), JointExit::Exit(sc(0, CurveEnd::Start)));
    assert_eq!(j.enter(sc(0, CurveEnd::Start), &readings), JointExit::Exit(sc(0, CurveEnd::End)));
}

#[test]
fn exit_ahead_beats_better_aligned_exit_behind() {
    let j = Joint::new(vec![
        single(0, CurveEnd::End),
        single(1, CurveEnd::Start),
        single(2, CurveEnd::Start),
    ]);
    let readings = vec![reading(0.0, 1.0), reading(1.0, -0.9), reading(0.2, 0.5)];
    assert_eq!(j.enter(sc(0, CurveEnd::End), &readings), JointExit::Exit(sc(2, CurveEnd::Start)));
}

#[test]
fn no_exit_ahead_falls_back_to_best_aligned() {
    let j = Joint::new(vec![
        single(0, CurveEnd::End),
        single(1, CurveEnd::Start),
        single(2, CurveEnd::Start),
    ]);
    let readings = vec![reading(0.0, 1.0), reading(0.3, -0.9), reading(0.7, -0.5)];
    assert_eq!(j.enter(sc(0, CurveEnd::End), &readings), JointExit::Exit(sc(2, CurveEnd::Start)));
}

#[test]
fn slightly_backward_exit_still_counts_as_ahead() {
    let j = Joint::new(vec![
        single(0, CurveEnd::End),
        single(1, CurveEnd::Start),
        single(2, CurveEnd::Start),
    ]);
    let readings = vec![reading(0.0, 1.0), reading(0.9, -0.5), reading(0.1, -0.00005)];
    assert_eq!(j.enter(sc(0, CurveEnd::End), &readings), JointExit::Exit(sc(2, CurveEnd::Start)));
}

#[test]
fn equal_alignment_takes_first() {
    let j = Joint::new(vec![
        single(0, CurveEnd::End),
        single(1, CurveEnd::Start),
        single(2, CurveEnd::Start),
    ]);
    let readings = vec![reading(0.0, 1.0), reading(0.5, 0.5), reading(0.5, 0.5)];
    assert_eq!(j.enter(sc(0, CurveEnd::End), &readings), JointExit::Exit(sc(1, CurveEnd::Start)));
}

#[test]
fn arrival_connection_is_never_chosen() {
    let j = Joint::new(vec![single(0, CurveEnd::End), single(1, CurveEnd::Start)]);
    let readings = vec![reading(1.0, 1.0), reading(-1.0, -1.0)];
    assert_eq!(j.enter(sc(0, CurveEnd::End), &readings), JointExit::Exit(sc(1, CurveEnd::Start)));
}

#[test]
fn fork_member_picked_by_sector() {
    let j = Joint::new(vec![
        single(0, CurveEnd::End),
        JointConnection::new(vec![sc(1, CurveEnd::Start), sc(2, CurveEnd::Start)]),
    ]);
    let left = vec![reading(0.0, 1.0), ExitReading { sector: -3, ..reading(1.0, 1.0) }];
    let right = vec![reading(0.0, 1.0), ExitReading { sector: 2, ..reading(1.0, 1.0) }];
    assert_eq!(j.enter(sc(0, CurveEnd::End), &left), JointExit::Exit(sc(1, CurveEnd::Start)));
    assert_eq!(j.enter(sc(0, CurveEnd::End), &right), JointExit::Exit(sc(2, CurveEnd::Start)));
}

#[test]
fn repeated_entries_agree() {
    let (j, dirs) = fork();
    let readings = fork_readings(&dirs, (1.0, 0.0), dirs[0]);
    let first = j.enter(sc(0, CurveEnd::End), &readings);
    for _ in 0..5 {
        assert_eq!(j.enter(sc(0, CurveEnd::End), &readings), first);
    }
}
