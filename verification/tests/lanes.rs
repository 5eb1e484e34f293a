use gitgraph::commit::{CommitInfo, SignatureInfo};
use gitgraph::lanes::{
    get_avilable_color, get_positioned_commits, BranchPath, CommitPositioner, PositionedCommit,
};
use gitgraph::oid::Oid;

fn oid(n: u8) -> Oid {
    Oid::from_bytes([n; 20])
}

fn nobody() -> SignatureInfo {
    SignatureInfo::from_parts(None, None, None, 0)
}

fn commit(id: u8, parents: &[u8]) -> CommitInfo {
    CommitInfo::new(
        oid(id),
        None,
        None,
        0,
        parents.iter().map(|p| oid(*p)).collect(),
        nobody(),
        nobody(),
    )
}

fn colors_are_distinct(lanes: &Vec<Option<(Oid, usize)>>) -> bool {
    let held: Vec<usize> = lanes.iter().filter_map(|lane| lane.map(|slot| slot.1)).collect();
    held.iter().enumerate().all(|(i, c)| !held[..i].contains(c))
}

fn parents_of(row: &PositionedCommit) -> usize {
    row.paths.iter().filter(|(path, _)| matches!(path, BranchPath::Parent(_))).count()
}

fn follows_of(row: &PositionedCommit) -> usize {
    row.paths.iter().filter(|(path, _)| matches!(path, BranchPath::Follow(_))).count()
}

#[test]
fn linear_history_shares_one_lane_and_color() {
    let rows = get_positioned_commits(vec![commit(3, &[2]), commit(2, &[1]), commit(1, &[])]);
    assert_eq!(rows.len(), 3);
    for row in &rows {
        assert_eq!(row.position, 0);
        assert!(row.paths.iter().all(|(_, color)| *color == 0));
        assert_eq!(follows_of(row), 0);
    }
    assert_eq!(rows[0].paths, vec![(BranchPath::Parent(0), 0)]);
    assert_eq!(rows[1].paths, vec![(BranchPath::Base(0), 0), (BranchPath::Parent(0), 0)]);
    assert_eq!(rows[2].paths, vec![(BranchPath::Base(0), 0)]);
    assert_eq!(parents_of(&rows[0]), 1);
    assert_eq!(parents_of(&rows[1]), 1);
    assert_eq!(parents_of(&rows[2]), 0);
}

#[test]
fn fork_then_merge_meets_at_the_common_ancestor() {
    // M1 = 11 and F1 = 21 are both children of M0 = 10, whose parent is 9.
    let mut engine = CommitPositioner::new();
    let m1 = engine.position_commit(commit(11, &[10]));
    assert_eq!(m1.position, 0);
    assert_eq!(m1.paths, vec![(BranchPath::Parent(0), 0)]);
    assert_eq!(engine.lanes(), &vec![Some((oid(10), 0))]);

    let f1 = engine.position_commit(commit(21, &[10]));
    assert_eq!(f1.position, 1);
    assert_eq!(f1.paths, vec![(BranchPath::Follow(0), 0), (BranchPath::Parent(1), 1)]);
    assert_eq!(engine.lanes(), &vec![Some((oid(10), 0)), Some((oid(10), 1))]);

    let m0 = engine.position_commit(commit(10, &[9]));
    assert_eq!(m0.position, 0);
    assert_eq!(
        m0.paths,
        vec![(BranchPath::Base(0), 0), (BranchPath::Base(1), 1), (BranchPath::Parent(0), 0)]
    );
    assert_eq!(engine.lanes(), &vec![Some((oid(9), 0)), None]);
}

#[test]
fn fork_then_merge_at_a_root_leaves_only_tombstones() {
    let rows = get_positioned_commits(vec![commit(11, &[10]), commit(21, &[10]), commit(10, &[])]);
    assert_eq!(rows[2].position, 0);
    assert_eq!(rows[2].paths, vec![(BranchPath::Base(0), 0), (BranchPath::Base(1), 1)]);
}

#[test]
fn the_commit_is_handed_back_unchanged() {
    let given = commit(7, &[6, 5]);
    let rows = get_positioned_commits(vec![given.clone()]);
    assert_eq!(rows[0].commit, given);
}

#[test]
fn merge_opens_a_second_lane_with_the_smallest_free_color() {
    let mut engine = CommitPositioner::new();
    let merge = engine.position_commit(commit(9, &[8, 7]));
    assert_eq!(merge.position, 0);
    assert_eq!(merge.paths, vec![(BranchPath::Parent(0), 0), (BranchPath::Parent(1), 1)]);
    assert_eq!(engine.lanes(), &vec![Some((oid(8), 0)), Some((oid(7), 1))]);
}

#[test]
fn merge_rejoins_a_lane_that_waits_for_its_second_parent() {
    let mut engine = CommitPositioner::new();
    engine.position_commit(commit(20, &[7]));
    let merge = engine.position_commit(commit(9, &[8, 7]));
    assert_eq!(merge.position, 1);
    assert_eq!(
        merge.paths,
        vec![(BranchPath::Follow(0), 0), (BranchPath::Parent(1), 1), (BranchPath::Parent(0), 0)]
    );
    assert_eq!(engine.lanes(), &vec![Some((oid(7), 0)), Some((oid(8), 1))]);
}

#[test]
fn octopus_merge_attaches_every_parent() {
    let mut engine = CommitPositioner::new();
    let row = engine.position_commit(commit(9, &[1, 2, 3]));
    assert_eq!(
        row.paths,
        vec![(BranchPath::Parent(0), 0), (BranchPath::Parent(1), 1), (BranchPath::Parent(2), 2)]
    );
    assert_eq!(engine.lanes().len(), 3);
}

#[test]
fn tombstone_is_reused_before_the_array_grows() {
    let mut engine = CommitPositioner::new();
    engine.position_commit(commit(11, &[10]));
    engine.position_commit(commit(21, &[20]));
    engine.position_commit(commit(31, &[30]));
    // The root 20 ends lane 1.
    let root = engine.position_commit(commit(20, &[]));
    assert_eq!(root.position, 1);
    assert_eq!(engine.lanes(), &vec![Some((oid(10), 0)), None, Some((oid(30), 2))]);
    // A new tip takes the tombstone and the color that lane 1 gave up.
    let tip = engine.position_commit(commit(41, &[40]));
    assert_eq!(tip.position, 1);
    assert_eq!(
        tip.paths,
        vec![(BranchPath::Follow(0), 0), (BranchPath::Follow(2), 2), (BranchPath::Parent(1), 1)]
    );
    assert_eq!(engine.lanes().len(), 3);
}

#[test]
fn fresh_color_is_the_smallest_one_not_held() {
    let mut engine = CommitPositioner::new();
    engine.position_commit(commit(11, &[10]));
    engine.position_commit(commit(21, &[20]));
    engine.position_commit(commit(31, &[30]));
    // Lane 0 ends at the root 10: color 0 is free, lane 0 is a tombstone.
    engine.position_commit(commit(10, &[]));
    let tip = engine.position_commit(commit(41, &[40]));
    assert_eq!(tip.position, 0);
    assert_eq!(tip.paths.last(), Some(&(BranchPath::Parent(0), 0)));
}

#[test]
fn a_root_without_a_lane_leaves_no_trace_in_the_lanes() {
    let mut engine = CommitPositioner::new();
    let root = engine.position_commit(commit(1, &[]));
    assert_eq!(root.position, 0);
    assert!(root.paths.is_empty());
    assert!(engine.lanes().is_empty());
}

#[test]
fn a_parent_that_never_arrives_keeps_its_lane_open() {
    let rows = get_positioned_commits(vec![commit(5, &[99]), commit(4, &[3]), commit(3, &[])]);
    assert_eq!(rows[1].position, 1);
    assert_eq!(rows[2].position, 1);
    assert_eq!(rows[2].paths, vec![(BranchPath::Base(1), 1), (BranchPath::Follow(0), 0)]);
}

#[test]
fn position_never_leaves_a_gap() {
    let commits = vec![
        commit(50, &[40, 41]),
        commit(41, &[30]),
        commit(60, &[40]),
        commit(40, &[30]),
        commit(30, &[20, 21, 22]),
        commit(22, &[10]),
        commit(21, &[10]),
        commit(20, &[10]),
        commit(10, &[]),
    ];
    let mut engine = CommitPositioner::new();
    for c in commits {
        let lanes_before = engine.lanes().len();
        let row = engine.position_commit(c);
        assert!(row.position <= lanes_before);
        assert!(engine.lanes().len() >= lanes_before);
        for (path, _) in &row.paths {
            let lane = match path {
                BranchPath::Base(lane) => *lane,
                BranchPath::Parent(lane) => *lane,
                BranchPath::Follow(lane) => *lane,
            };
            assert!(lane < engine.lanes().len());
        }
    }
}

#[test]
fn no_color_is_held_by_two_lanes_after_any_step() {
    let commits = vec![
        commit(50, &[40, 41]),
        commit(41, &[30]),
        commit(60, &[40]),
        commit(40, &[30]),
        commit(70, &[30, 60]),
        commit(30, &[20, 21, 22]),
        commit(22, &[10]),
        commit(21, &[10]),
        commit(20, &[10]),
        commit(10, &[]),
    ];
    let mut engine = CommitPositioner::new();
    assert!(colors_are_distinct(engine.lanes()));
    for c in commits {
        engine.position_commit(c);
        assert!(colors_are_distinct(engine.lanes()));
    }
}

#[test]
fn the_same_input_gives_the_same_layout() {
    let build = || vec![commit(50, &[40, 41]), commit(41, &[30]), commit(40, &[30]), commit(30, &[])];
    assert_eq!(get_positioned_commits(build()), get_positioned_commits(build()));
}

#[test]
fn an_empty_run_gives_no_rows() {
    assert!(get_positioned_commits(Vec::new()).is_empty());
}

#[test]
fn available_color_is_the_smallest_that_no_lane_holds() {
    assert_eq!(get_avilable_color(&vec![]), 0);
    assert_eq!(get_avilable_color(&vec![None, None]), 0);
    assert_eq!(get_avilable_color(&vec![Some((oid(1), 0))]), 1);
    assert_eq!(get_avilable_color(&vec![Some((oid(1), 1)), None, Some((oid(2), 0))]), 2);
    assert_eq!(get_avilable_color(&vec![Some((oid(1), 2)), Some((oid(2), 0))]), 1);
    assert_eq!(get_avilable_color(&vec![Some((oid(1), 7)), Some((oid(2), 9))]), 0);
    let full = vec![Some((oid(1), 2)), Some((oid(2), 0)), Some((oid(3), 1))];
    assert_eq!(get_avilable_color(&full), 3);
    assert_eq!(full.len(), 3);
}
