//! Lane assignment: the layout of a commit graph, one row per commit.
//!
//! The layout state is an array of lane slots. An occupied slot holds the id
//! of the commit that the lane waits for and the color of the lane; an empty
//! slot is a tombstone that a later lane may reuse. Slots are never removed,
//! so a lane index stays valid for the whole run.

use crate::commit::CommitInfo;
use crate::oid::Oid;
use vstd::prelude::*;
use vstd::relations::injective_on;
use vstd::set_lib::{lemma_int_range, lemma_len_subset, lemma_map_size, set_int_range};

verus! {

/// A line segment in the row of one commit, by the lane it runs in.
#[derive(Clone, Copy, Debug, PartialEq, Eq, Structural)]
pub enum BranchPath {
    /// From the top of the row into the commit: the lane ends here.
    Base(usize),
    /// From the commit to the bottom of the row: the lane now waits for one
    /// of the commit's parents.
    Parent(usize),
    /// From the top of the row to its bottom: the lane passes by.
    Follow(usize),
}

/// A commit with its place in the graph.
#[derive(Clone, Debug, PartialEq, Eq)]
pub struct PositionedCommit {
    pub commit: CommitInfo,
    /// The lane of the commit's dot.
    pub position: usize,
    /// The segments of the row, each with the color of its lane: first the
    /// `Base` segments, then the `Follow` segments, then the `Parent` ones.
    pub paths: Vec<(BranchPath, usize)>,
}

/// Whether a slot is occupied and waits for `id`.
pub open spec fn targets(lane: Option<(Oid, usize)>, id: Oid) -> bool {
    match lane {
        Some(slot) => slot.0 == id,
        None => false,
    }
}

/// Whether a slot is occupied and has the given color.
pub open spec fn holds_color(lane: Option<(Oid, usize)>, color: int) -> bool {
    match lane {
        Some(slot) => slot.1 == color,
        None => false,
    }
}

/// The color of an occupied slot.
pub open spec fn color_of(lane: Option<(Oid, usize)>) -> usize {
    match lane {
        Some(slot) => slot.1,
        None => 0,
    }
}

/// Whether some occupied lane has the given color.
pub open spec fn color_in_use(lanes: Seq<Option<(Oid, usize)>>, color: int) -> bool {
    exists|i: int| 0 <= i < lanes.len() && holds_color(#[trigger] lanes[i], color)
}

/// No color is held by two occupied lanes.
pub open spec fn distinct_colors(lanes: Seq<Option<(Oid, usize)>>) -> bool {
    forall|i: int, j: int|
        #![trigger lanes[i], lanes[j]]
        0 <= i < j < lanes.len() && lanes[i] is Some && lanes[j] is Some ==> color_of(lanes[i])
            != color_of(lanes[j])
}

/// The first lane at or after `from` that waits for `id`; the number of
/// lanes if there is none.
pub open spec fn first_target_from(lanes: Seq<Option<(Oid, usize)>>, id: Oid, from: int) -> int
    decreases lanes.len() - from,
{
    if from < 0 || from >= lanes.len() {
        lanes.len() as int
    } else if targets(lanes[from], id) {
        from
    } else {
        first_target_from(lanes, id, from + 1)
    }
}

/// The leftmost lane that waits for `id`; the number of lanes if there is
/// none.
pub open spec fn first_target(lanes: Seq<Option<(Oid, usize)>>, id: Oid) -> int {
    first_target_from(lanes, id, 0)
}

/// Whether some lane waits for `id`.
pub open spec fn has_target(lanes: Seq<Option<(Oid, usize)>>, id: Oid) -> bool {
    first_target(lanes, id) < lanes.len()
}

/// The first tombstone at or after `from`; the number of lanes if there is
/// none.
pub open spec fn first_free_from(lanes: Seq<Option<(Oid, usize)>>, from: int) -> int
    decreases lanes.len() - from,
{
    if from < 0 || from >= lanes.len() {
        lanes.len() as int
    } else if lanes[from] is None {
        from
    } else {
        first_free_from(lanes, from + 1)
    }
}

/// Where a new lane opens: the leftmost tombstone, or a new slot at the end.
pub open spec fn first_free(lanes: Seq<Option<(Oid, usize)>>) -> int {
    first_free_from(lanes, 0)
}

/// The smallest color from `from` on that no occupied lane holds, searched
/// below the number of lanes; the number of lanes if all of those are held.
pub open spec fn smallest_unused_from(lanes: Seq<Option<(Oid, usize)>>, from: int) -> int
    decreases lanes.len() - from,
{
    if from < 0 || from >= lanes.len() {
        lanes.len() as int
    } else if !color_in_use(lanes, from) {
        from
    } else {
        smallest_unused_from(lanes, from + 1)
    }
}

/// The color of a new lane: the smallest one that no occupied lane holds.
pub open spec fn fresh_color(lanes: Seq<Option<(Oid, usize)>>) -> int {
    smallest_unused_from(lanes, 0)
}

/// The lane that takes up `id`: the leftmost lane that waits for it, or a new
/// lane if none does.
pub open spec fn entry_position(lanes: Seq<Option<(Oid, usize)>>, id: Oid) -> int {
    if has_target(lanes, id) {
        first_target(lanes, id)
    } else {
        first_free(lanes)
    }
}

/// The color that goes with `entry_position`: that of the leftmost lane that
/// waits for `id`, or a fresh color if none does.
pub open spec fn entry_color(lanes: Seq<Option<(Oid, usize)>>, id: Oid) -> int {
    if has_target(lanes, id) {
        color_of(lanes[first_target(lanes, id)]) as int
    } else {
        fresh_color(lanes)
    }
}

/// The lanes after every lane that waits for `id` has become a tombstone.
pub open spec fn retire(lanes: Seq<Option<(Oid, usize)>>, id: Oid) -> Seq<Option<(Oid, usize)>> {
    Seq::new(
        lanes.len(),
        |i: int|
            if targets(lanes[i], id) {
                None
            } else {
                lanes[i]
            },
    )
}

/// The `Base` segments of the first `upto` lanes: one for each lane that
/// waits for `id`, in lane order, with the lane's color.
pub open spec fn base_paths(lanes: Seq<Option<(Oid, usize)>>, id: Oid, upto: int) -> Seq<
    (BranchPath, usize),
>
    decreases upto,
{
    if upto <= 0 {
        Seq::empty()
    } else {
        let before = base_paths(lanes, id, upto - 1);
        if upto <= lanes.len() && targets(lanes[upto - 1], id) {
            before.push((BranchPath::Base((upto - 1) as usize), color_of(lanes[upto - 1])))
        } else {
            before
        }
    }
}

/// The `Follow` segments of the first `upto` lanes: one for each occupied
/// lane that does not wait for `id`, in lane order, with the lane's color.
pub open spec fn follow_paths(lanes: Seq<Option<(Oid, usize)>>, id: Oid, upto: int) -> Seq<
    (BranchPath, usize),
>
    decreases upto,
{
    if upto <= 0 {
        Seq::empty()
    } else {
        let before = follow_paths(lanes, id, upto - 1);
        if upto <= lanes.len() && lanes[upto - 1] is Some && !targets(lanes[upto - 1], id) {
            before.push((BranchPath::Follow((upto - 1) as usize), color_of(lanes[upto - 1])))
        } else {
            before
        }
    }
}

/// The lanes with `slot` written at `position`; at the end, the array grows
/// by one slot.
pub open spec fn place(lanes: Seq<Option<(Oid, usize)>>, position: int, slot: (Oid, usize)) -> Seq<
    Option<(Oid, usize)>,
> {
    if position == lanes.len() {
        lanes.push(Some(slot))
    } else {
        lanes.update(position, Some(slot))
    }
}

/// Lanes and row segments while the parents of a commit are attached.
pub struct Row {
    pub lanes: Seq<Option<(Oid, usize)>>,
    pub paths: Seq<(BranchPath, usize)>,
}

/// Attaches the parents from index `k` on, each in turn: a parent that some
/// lane already waits for rejoins the leftmost such lane; any other opens a
/// new lane with a fresh color. Each adds one `Parent` segment.
pub open spec fn attach_parents(row: Row, parents: Seq<Oid>, k: int) -> Row
    decreases parents.len() - k,
{
    if k < 0 || k >= parents.len() {
        row
    } else {
        let position = entry_position(row.lanes, parents[k]);
        let color = entry_color(row.lanes, parents[k]) as usize;
        attach_parents(
            Row {
                lanes: place(row.lanes, position, (parents[k], color)),
                paths: row.paths.push((BranchPath::Parent(position as usize), color)),
            },
            parents,
            k + 1,
        )
    }
}

/// The row of one commit.
pub struct Step {
    /// The lane of the commit.
    pub position: int,
    /// The color of the commit's lane.
    pub color: int,
    /// The lanes after the commit.
    pub lanes: Seq<Option<(Oid, usize)>>,
    /// The segments of the row.
    pub paths: Seq<(BranchPath, usize)>,
}

/// What a commit with the given id and parents does to the lanes.
///
/// The commit takes the leftmost lane that waits for it, with that lane's
/// color, or opens a new lane. Every lane that waits for it ends with a
/// `Base` segment and becomes a tombstone; every other occupied lane passes
/// with a `Follow` segment. The first parent continues the commit's lane in
/// the commit's color; the other parents are attached as `attach_parents`
/// says.
pub open spec fn layout_step(lanes: Seq<Option<(Oid, usize)>>, id: Oid, parents: Seq<Oid>) -> Step {
    let position = entry_position(lanes, id);
    let color = entry_color(lanes, id);
    let top = Row {
        lanes: retire(lanes, id),
        paths: base_paths(lanes, id, lanes.len() as int) + follow_paths(
            lanes,
            id,
            lanes.len() as int,
        ),
    };
    let bottom = if parents.len() == 0 {
        top
    } else {
        attach_parents(
            Row {
                lanes: place(top.lanes, position, (parents[0], color as usize)),
                paths: top.paths.push((BranchPath::Parent(position as usize), color as usize)),
            },
            parents,
            1,
        )
    };
    Step { position, color, lanes: bottom.lanes, paths: bottom.paths }
}


/// `first_target_from` returns the first lane from `from` on that waits for
/// `id`, and none before it does.
pub proof fn lemma_first_target_from(lanes: Seq<Option<(Oid, usize)>>, id: Oid, from: int)
    requires
        0 <= from <= lanes.len(),
    ensures
        from <= first_target_from(lanes, id, from) <= lanes.len(),
        first_target_from(lanes, id, from) < lanes.len() ==> targets(
            lanes[first_target_from(lanes, id, from)],
            id,
        ),
        forall|j: int|
            from <= j < first_target_from(lanes, id, from) ==> !targets(#[trigger] lanes[j], id),
    decreases lanes.len() - from,
{
    if from < lanes.len() && !targets(lanes[from], id) {
        lemma_first_target_from(lanes, id, from + 1);
    }
}

/// `first_free_from` returns the first tombstone from `from` on, and every
/// slot before it is occupied.
pub proof fn lemma_first_free_from(lanes: Seq<Option<(Oid, usize)>>, from: int)
    requires
        0 <= from <= lanes.len(),
    ensures
        from <= first_free_from(lanes, from) <= lanes.len(),
        first_free_from(lanes, from) < lanes.len() ==> lanes[first_free_from(lanes, from)] is None,
        forall|j: int| from <= j < first_free_from(lanes, from) ==> (#[trigger] lanes[j]) is Some,
    decreases lanes.len() - from,
{
    if from < lanes.len() && lanes[from] is Some {
        lemma_first_free_from(lanes, from + 1);
    }
}

/// `smallest_unused_from` passes over colors in use only, and stops below
/// the number of lanes only at a color that is not in use.
pub proof fn lemma_smallest_unused_from(lanes: Seq<Option<(Oid, usize)>>, from: int)
    requires
        0 <= from <= lanes.len(),
    ensures
        from <= smallest_unused_from(lanes, from) <= lanes.len(),
        smallest_unused_from(lanes, from) < lanes.len() ==> !color_in_use(
            lanes,
            smallest_unused_from(lanes, from),
        ),
        forall|c: int|
            from <= c < smallest_unused_from(lanes, from) ==> #[trigger] color_in_use(lanes, c),
    decreases lanes.len() - from,
{
    if from < lanes.len() && color_in_use(lanes, from) {
        lemma_smallest_unused_from(lanes, from + 1);
    }
}

/// A lane that holds the given color, if the color is in use.
pub open spec fn holder_of(lanes: Seq<Option<(Oid, usize)>>, color: int) -> int {
    choose|i: int| 0 <= i < lanes.len() && holds_color(#[trigger] lanes[i], color)
}

/// Fewer lanes than colors: the colors `0` to `lanes.len()` cannot all be in
/// use.
pub proof fn lemma_some_color_unused(lanes: Seq<Option<(Oid, usize)>>)
    ensures
        exists|c: int| 0 <= c <= lanes.len() && !#[trigger] color_in_use(lanes, c),
{
    let n = lanes.len() as int;
    if forall|c: int| 0 <= c <= n ==> #[trigger] color_in_use(lanes, c) {
        let colors = set_int_range(0, n + 1);
        let holder = |c: int| holder_of(lanes, c);
        let holders = colors.map(holder);
        lemma_int_range(0, n + 1);
        lemma_int_range(0, n);
        assert forall|c: int| colors.contains(c) implies 0 <= #[trigger] holder(c) < n
            && holds_color(lanes[holder(c)], c) by {
            assert(color_in_use(lanes, c));
        }
        assert(injective_on(holder, colors)) by {
            assert forall|a: int, b: int|
                colors.contains(a) && colors.contains(b) && #[trigger] holder(a) == #[trigger] holder(
                    b,
                ) implies a == b by {
                assert(holds_color(lanes[holder(a)], a));
                assert(holds_color(lanes[holder(b)], b));
            }
        }
        lemma_map_size(colors, holders, holder);
        assert(holders.subset_of(set_int_range(0, n))) by {
            assert forall|i: int| holders.contains(i) implies set_int_range(0, n).contains(i) by {
                let c = choose|c: int| colors.contains(c) && holder(c) == i;
                assert(0 <= holder(c) < n);
            }
        }
        lemma_len_subset(holders, set_int_range(0, n));
    }
}

/// The fresh color is the smallest color that no occupied lane holds, and
/// it is at most the number of lanes.
pub proof fn lemma_fresh_color(lanes: Seq<Option<(Oid, usize)>>)
    ensures
        0 <= fresh_color(lanes) <= lanes.len(),
        !color_in_use(lanes, fresh_color(lanes)),
        forall|c: int| 0 <= c < fresh_color(lanes) ==> #[trigger] color_in_use(lanes, c),
{
    lemma_smallest_unused_from(lanes, 0);
    if fresh_color(lanes) == lanes.len() {
        lemma_some_color_unused(lanes);
    }
}

/// Where a commit or a parent enters: at a lane that waits for it, or at a
/// free slot with a color that no lane holds.
pub proof fn lemma_entry(lanes: Seq<Option<(Oid, usize)>>, id: Oid)
    ensures
        0 <= entry_position(lanes, id) <= lanes.len(),
        has_target(lanes, id) ==> entry_position(lanes, id) < lanes.len() && targets(
            lanes[entry_position(lanes, id)],
            id,
        ) && entry_color(lanes, id) == color_of(lanes[entry_position(lanes, id)]),
        has_target(lanes, id) ==> forall|j: int|
            0 <= j < entry_position(lanes, id) ==> !targets(#[trigger] lanes[j], id),
        !has_target(lanes, id) ==> forall|j: int|
            0 <= j < lanes.len() ==> !targets(#[trigger] lanes[j], id),
        !has_target(lanes, id) ==> (entry_position(lanes, id) < lanes.len() ==> lanes[entry_position(
            lanes,
            id,
        )] is None) && 0 <= entry_color(lanes, id) <= lanes.len() && !color_in_use(
            lanes,
            entry_color(lanes, id),
        ),
{
    lemma_first_target_from(lanes, id, 0);
    lemma_first_free_from(lanes, 0);
    lemma_fresh_color(lanes);
}


/// Writing a slot whose color no other lane holds keeps the colors apart.
pub proof fn lemma_place_keeps_distinct(
    lanes: Seq<Option<(Oid, usize)>>,
    position: int,
    slot: (Oid, usize),
)
    requires
        distinct_colors(lanes),
        0 <= position <= lanes.len(),
        forall|j: int|
            0 <= j < lanes.len() && j != position ==> !holds_color(#[trigger] lanes[j], slot.1 as int),
    ensures
        distinct_colors(place(lanes, position, slot)),
        place(lanes, position, slot).len() >= lanes.len(),
{
    let after = place(lanes, position, slot);
    assert forall|i: int, j: int|
        #![trigger after[i], after[j]]
        0 <= i < j < after.len() && after[i] is Some && after[j] is Some implies color_of(after[i])
        != color_of(after[j]) by {
        if i != position {
            assert(after[i] == lanes[i]);
            assert(!holds_color(lanes[i], slot.1 as int));
        }
        if j != position {
            assert(after[j] == lanes[j]);
            assert(!holds_color(lanes[j], slot.1 as int));
        }
    }
}

/// Attaching parents never removes a slot.
pub proof fn lemma_attach_grows(row: Row, parents: Seq<Oid>, k: int)
    ensures
        attach_parents(row, parents, k).lanes.len() >= row.lanes.len(),
    decreases parents.len() - k,
{
    if 0 <= k < parents.len() {
        let position = entry_position(row.lanes, parents[k]);
        let color = entry_color(row.lanes, parents[k]) as usize;
        lemma_entry(row.lanes, parents[k]);
        lemma_attach_grows(
            Row {
                lanes: place(row.lanes, position, (parents[k], color)),
                paths: row.paths.push((BranchPath::Parent(position as usize), color)),
            },
            parents,
            k + 1,
        );
    }
}

/// Attaching parents keeps the colors of the occupied lanes apart.
pub proof fn lemma_attach_keeps_distinct(row: Row, parents: Seq<Oid>, k: int)
    requires
        distinct_colors(row.lanes),
        attach_parents(row, parents, k).lanes.len() <= usize::MAX,
    ensures
        distinct_colors(attach_parents(row, parents, k).lanes),
    decreases parents.len() - k,
{
    if 0 <= k < parents.len() {
        let lanes = row.lanes;
        let position = entry_position(lanes, parents[k]);
        let color = entry_color(lanes, parents[k]);
        let next = Row {
            lanes: place(lanes, position, (parents[k], color as usize)),
            paths: row.paths.push((BranchPath::Parent(position as usize), color as usize)),
        };
        lemma_entry(lanes, parents[k]);
        lemma_attach_grows(next, parents, k + 1);
        assert(color as usize == color);
        assert forall|j: int| 0 <= j < lanes.len() && j != position implies !holds_color(
            #[trigger] lanes[j],
            color,
        ) by {
            if has_target(lanes, parents[k]) {
                if lanes[j] is Some {
                    if j < position {
                        assert(color_of(lanes[j]) != color_of(lanes[position]));
                    } else {
                        assert(color_of(lanes[position]) != color_of(lanes[j]));
                    }
                }
            }
        }
        lemma_place_keeps_distinct(lanes, position, (parents[k], color as usize));
        lemma_attach_keeps_distinct(next, parents, k + 1);
    }
}

/// The commit's lane is an existing lane or the next new one: its position
/// is at most the number of lanes before the commit. No step removes a slot.
pub proof fn lemma_step_position_in_range(
    lanes: Seq<Option<(Oid, usize)>>,
    id: Oid,
    parents: Seq<Oid>,
)
    ensures
        0 <= layout_step(lanes, id, parents).position <= lanes.len(),
        layout_step(lanes, id, parents).lanes.len() >= lanes.len(),
        parents.len() > 0 ==> layout_step(lanes, id, parents).position < layout_step(
            lanes,
            id,
            parents,
        ).lanes.len(),
{
    lemma_entry(lanes, id);
    if parents.len() > 0 {
        let position = entry_position(lanes, id);
        let color = entry_color(lanes, id);
        let top = Row {
            lanes: retire(lanes, id),
            paths: base_paths(lanes, id, lanes.len() as int) + follow_paths(
                lanes,
                id,
                lanes.len() as int,
            ),
        };
        lemma_attach_grows(
            Row {
                lanes: place(top.lanes, position, (parents[0], color as usize)),
                paths: top.paths.push((BranchPath::Parent(position as usize), color as usize)),
            },
            parents,
            1,
        );
    }
}

/// The lane in which a segment runs.
pub open spec fn lane_of(path: BranchPath) -> usize {
    match path {
        BranchPath::Base(lane) => lane,
        BranchPath::Parent(lane) => lane,
        BranchPath::Follow(lane) => lane,
    }
}

/// Whether every segment runs in one of the first `count` lanes.
pub open spec fn lanes_below(paths: Seq<(BranchPath, usize)>, count: int) -> bool {
    forall|i: int| 0 <= i < paths.len() ==> lane_of((#[trigger] paths[i]).0) < count
}

/// The `Base` and `Follow` segments of the first `upto` lanes run in those
/// lanes.
pub proof fn lemma_top_paths_in_range(lanes: Seq<Option<(Oid, usize)>>, id: Oid, upto: int)
    requires
        0 <= upto <= lanes.len() <= usize::MAX,
    ensures
        lanes_below(base_paths(lanes, id, upto), upto),
        lanes_below(follow_paths(lanes, id, upto), upto),
    decreases upto,
{
    if upto > 0 {
        lemma_top_paths_in_range(lanes, id, upto - 1);
        let bases = base_paths(lanes, id, upto);
        let before_bases = base_paths(lanes, id, upto - 1);
        assert forall|i: int| 0 <= i < bases.len() implies lane_of((#[trigger] bases[i]).0)
            < upto by {
            if i < before_bases.len() {
                assert(bases[i] == before_bases[i]);
            }
        }
        let follows = follow_paths(lanes, id, upto);
        let before_follows = follow_paths(lanes, id, upto - 1);
        assert forall|i: int| 0 <= i < follows.len() implies lane_of((#[trigger] follows[i]).0)
            < upto by {
            if i < before_follows.len() {
                assert(follows[i] == before_follows[i]);
            }
        }
    }
}

/// Attaching parents adds segments that run in the lanes as they stand
/// afterwards.
pub proof fn lemma_attach_paths_in_range(row: Row, parents: Seq<Oid>, k: int)
    requires
        lanes_below(row.paths, row.lanes.len() as int),
        attach_parents(row, parents, k).lanes.len() <= usize::MAX,
    ensures
        lanes_below(
            attach_parents(row, parents, k).paths,
            attach_parents(row, parents, k).lanes.len() as int,
        ),
    decreases parents.len() - k,
{
    if 0 <= k < parents.len() {
        let position = entry_position(row.lanes, parents[k]);
        let color = entry_color(row.lanes, parents[k]) as usize;
        let next = Row {
            lanes: place(row.lanes, position, (parents[k], color)),
            paths: row.paths.push((BranchPath::Parent(position as usize), color)),
        };
        lemma_entry(row.lanes, parents[k]);
        lemma_attach_grows(next, parents, k + 1);
        assert forall|i: int| 0 <= i < next.paths.len() implies lane_of(
            (#[trigger] next.paths[i]).0,
        ) < next.lanes.len() by {
            if i < row.paths.len() {
                assert(next.paths[i] == row.paths[i]);
            }
        }
        lemma_attach_paths_in_range(next, parents, k + 1);
    }
}

/// Every segment of a row runs in a lane that is there after the commit.
pub proof fn lemma_step_paths_in_range(
    lanes: Seq<Option<(Oid, usize)>>,
    id: Oid,
    parents: Seq<Oid>,
)
    requires
        layout_step(lanes, id, parents).lanes.len() <= usize::MAX,
    ensures
        lanes_below(
            layout_step(lanes, id, parents).paths,
            layout_step(lanes, id, parents).lanes.len() as int,
        ),
{
    lemma_step_position_in_range(lanes, id, parents);
    lemma_top_paths_in_range(lanes, id, lanes.len() as int);
    lemma_entry(lanes, id);
    let bases = base_paths(lanes, id, lanes.len() as int);
    let follows = follow_paths(lanes, id, lanes.len() as int);
    let top = Row { lanes: retire(lanes, id), paths: bases + follows };
    assert forall|i: int| 0 <= i < top.paths.len() implies lane_of((#[trigger] top.paths[i]).0)
        < lanes.len() by {
        if i < bases.len() {
            assert(top.paths[i] == bases[i]);
        } else {
            assert(top.paths[i] == follows[i - bases.len()]);
        }
    }
    if parents.len() > 0 {
        let position = entry_position(lanes, id);
        let color = entry_color(lanes, id);
        let first = Row {
            lanes: place(top.lanes, position, (parents[0], color as usize)),
            paths: top.paths.push((BranchPath::Parent(position as usize), color as usize)),
        };
        lemma_attach_grows(first, parents, 1);
        assert forall|i: int| 0 <= i < first.paths.len() implies lane_of(
            (#[trigger] first.paths[i]).0,
        ) < first.lanes.len() by {
            if i < top.paths.len() {
                assert(first.paths[i] == top.paths[i]);
            }
        }
        lemma_attach_paths_in_range(first, parents, 1);
    }
}

/// No color is held by two occupied lanes after a commit, if none was
/// before it.
pub proof fn lemma_step_keeps_colors_distinct(
    lanes: Seq<Option<(Oid, usize)>>,
    id: Oid,
    parents: Seq<Oid>,
)
    requires
        distinct_colors(lanes),
        layout_step(lanes, id, parents).lanes.len() <= usize::MAX,
    ensures
        distinct_colors(layout_step(lanes, id, parents).lanes),
{
    let retired = retire(lanes, id);
    assert(distinct_colors(retired)) by {
        assert forall|i: int, j: int|
            #![trigger retired[i], retired[j]]
            0 <= i < j < retired.len() && retired[i] is Some && retired[j] is Some implies color_of(
                retired[i],
            ) != color_of(retired[j]) by {
            assert(retired[i] == lanes[i] && retired[j] == lanes[j]);
        }
    }
    if parents.len() > 0 {
        let position = entry_position(lanes, id);
        let color = entry_color(lanes, id);
        let top_paths = base_paths(lanes, id, lanes.len() as int) + follow_paths(
            lanes,
            id,
            lanes.len() as int,
        );
        let first = Row {
            lanes: place(retired, position, (parents[0], color as usize)),
            paths: top_paths.push((BranchPath::Parent(position as usize), color as usize)),
        };
        lemma_entry(lanes, id);
        lemma_attach_grows(first, parents, 1);
        assert(color as usize == color);
        assert forall|j: int| 0 <= j < retired.len() && j != position implies !holds_color(
            #[trigger] retired[j],
            color,
        ) by {
            if retired[j] is Some {
                assert(retired[j] == lanes[j]);
                if has_target(lanes, id) {
                    if j < position {
                        assert(color_of(lanes[j]) != color_of(lanes[position]));
                    } else {
                        assert(color_of(lanes[position]) != color_of(lanes[j]));
                    }
                } else {
                    assert(!holds_color(lanes[j], color));
                }
            }
        }
        lemma_place_keeps_distinct(retired, position, (parents[0], color as usize));
        lemma_attach_keeps_distinct(first, parents, 1);
    }
}


/// The leftmost lane that waits for `id`, or the number of lanes.
fn find_target(lanes: &Vec<Option<(Oid, usize)>>, id: &Oid) -> (found: usize)
    ensures
        found == first_target(lanes@, *id),
{
    let mut i: usize = 0;
    while i < lanes.len()
        invariant
            i <= lanes.len(),
            first_target_from(lanes@, *id, i as int) == first_target(lanes@, *id),
        decreases lanes.len() - i,
    {
        let hit = match &lanes[i] {
            Some(slot) => slot.0.same(id),
            None => false,
        };
        if hit {
            return i;
        }
        i += 1;
    }
    i
}

/// The leftmost tombstone, or the number of lanes.
fn find_free(lanes: &Vec<Option<(Oid, usize)>>) -> (found: usize)
    ensures
        found == first_free(lanes@),
{
    let mut i: usize = 0;
    while i < lanes.len()
        invariant
            i <= lanes.len(),
            first_free_from(lanes@, i as int) == first_free(lanes@),
        decreases lanes.len() - i,
    {
        if lanes[i].is_none() {
            return i;
        }
        i += 1;
    }
    i
}

/// The color for a new lane: the smallest color that no occupied lane
/// holds. It is at most the number of lanes.
pub fn get_avilable_color(lanes: &Vec<Option<(Oid, usize)>>) -> (color: usize)
    ensures
        color == fresh_color(lanes@),
        color <= lanes@.len(),
        !color_in_use(lanes@, color as int),
        forall|smaller: int| 0 <= smaller < color ==> #[trigger] color_in_use(lanes@, smaller),
{
    let n = lanes.len();
    let mut used: Vec<bool> = vec![false; n];
    let mut i: usize = 0;
    while i < n
        invariant
            i <= n,
            n == lanes.len(),
            used.len() == n,
            forall|c: int|
                0 <= c < n ==> (#[trigger] used[c] <==> color_in_use(lanes@.take(i as int), c)),
        decreases n - i,
    {
        let ghost seen = lanes@.take(i as int);
        let ghost next = lanes@.take(i + 1);
        let ghost marks = used@;
        match &lanes[i] {
            Some(slot) => {
                if slot.1 < n {
                    used[slot.1] = true;
                }
            },
            None => {},
        }
        proof {
            assert forall|c: int| 0 <= c < n implies (#[trigger] used[c] <==> color_in_use(
                next,
                c,
            )) by {
                assert(marks[c] <==> color_in_use(seen, c));
                if color_in_use(seen, c) {
                    let j = holder_of(seen, c);
                    assert(next[j] == seen[j]);
                }
                if holds_color(lanes@[i as int], c) {
                    assert(next[i as int] == lanes@[i as int]);
                }
                if color_in_use(next, c) {
                    let j = holder_of(next, c);
                    if j < i {
                        assert(seen[j] == next[j]);
                    }
                }
            }
        }
        i += 1;
    }
    assert(lanes@.take(n as int) =~= lanes@);
    let mut color: usize = 0;
    while color < n
        invariant
            color <= n,
            n == lanes.len(),
            used.len() == n,
            forall|c: int| 0 <= c < n ==> (#[trigger] used[c] <==> color_in_use(lanes@, c)),
            smallest_unused_from(lanes@, color as int) == fresh_color(lanes@),
        decreases n - color,
    {
        if !used[color] {
            proof {
                lemma_fresh_color(lanes@);
            }
            return color;
        }
        color += 1;
    }
    proof {
        lemma_fresh_color(lanes@);
    }
    color
}

/// The lane and the color with which `id` enters.
fn find_entry(lanes: &Vec<Option<(Oid, usize)>>, id: &Oid) -> (entry: (usize, usize))
    ensures
        entry.0 == entry_position(lanes@, *id),
        entry.1 == entry_color(lanes@, *id),
{
    let target = find_target(lanes, id);
    if target < lanes.len() {
        match &lanes[target] {
            Some(slot) => (target, slot.1),
            None => {
                proof {
                    lemma_first_target_from(lanes@, *id, 0);
                }
                (target, 0)
            },
        }
    } else {
        (find_free(lanes), get_avilable_color(lanes))
    }
}

/// Writes `slot` at `position`, growing the array by one slot at its end.
fn put(lanes: &mut Vec<Option<(Oid, usize)>>, position: usize, slot: (Oid, usize))
    requires
        position <= old(lanes)@.len(),
    ensures
        final(lanes)@ == place(old(lanes)@, position as int, slot),
{
    if position == lanes.len() {
        lanes.push(Some(slot));
    } else {
        lanes[position] = Some(slot);
    }
}


/// Whether `position` is the place of the commit `id` among the lanes: the
/// leftmost lane that waits for it; if none does, the leftmost tombstone, or
/// the end of the array if there is no tombstone.
pub open spec fn takes_its_place(lanes: Seq<Option<(Oid, usize)>>, id: Oid, position: int) -> bool {
    &&& 0 <= position <= lanes.len()
    &&& if exists|k: int| 0 <= k < lanes.len() && targets(#[trigger] lanes[k], id) {
        &&& position < lanes.len()
        &&& targets(lanes[position], id)
        &&& forall|k: int| 0 <= k < position ==> !targets(#[trigger] lanes[k], id)
    } else {
        &&& position < lanes.len() ==> lanes[position] is None
        &&& forall|k: int| 0 <= k < position ==> (#[trigger] lanes[k]) is Some
    }
}

/// The position of a row is the place of its commit among the lanes before
/// it.
pub proof fn lemma_step_takes_its_place(
    lanes: Seq<Option<(Oid, usize)>>,
    id: Oid,
    parents: Seq<Oid>,
)
    ensures
        takes_its_place(lanes, id, layout_step(lanes, id, parents).position),
{
    lemma_entry(lanes, id);
    lemma_first_target_from(lanes, id, 0);
    lemma_first_free_from(lanes, 0);
    if has_target(lanes, id) {
        assert(targets(lanes[first_target(lanes, id)], id));
    }
}

/// The layout engine: it holds the lanes between two commits.
///
/// Feed it the commits in the order in which they are to be drawn, children
/// before parents. A parent that never arrives leaves its lane open for the
/// rest of the run.
pub struct CommitPositioner {
    lanes: Vec<Option<(Oid, usize)>>,
}

impl View for CommitPositioner {
    type V = Seq<Option<(Oid, usize)>>;

    closed spec fn view(&self) -> Seq<Option<(Oid, usize)>> {
        self.lanes@
    }
}

impl CommitPositioner {
    #[verifier::type_invariant]
    spec fn colors_apart(self) -> bool {
        distinct_colors(self.lanes@)
    }

    /// An engine without lanes.
    pub fn new() -> (positioner: CommitPositioner)
        ensures
            positioner@ == Seq::<Option<(Oid, usize)>>::empty(),
    {
        CommitPositioner { lanes: Vec::new() }
    }

    /// The lanes as they stand: no color is held by two occupied lanes.
    pub fn lanes(&self) -> (lanes: &Vec<Option<(Oid, usize)>>)
        ensures
            lanes@ == self@,
            distinct_colors(lanes@),
    {
        proof {
            use_type_invariant(self);
        }
        &self.lanes
    }

    /// Places the next commit and moves the lanes on.
    pub fn position_commit(&mut self, commit: CommitInfo) -> (positioned: PositionedCommit)
        ensures
            positioned.commit == commit,
            positioned.position == layout_step(old(self)@, commit.id, commit.parents@).position,
            positioned.paths@ == layout_step(old(self)@, commit.id, commit.parents@).paths,
            final(self)@ == layout_step(old(self)@, commit.id, commit.parents@).lanes,
            positioned.position <= old(self)@.len(),
            takes_its_place(old(self)@, commit.id, positioned.position as int),
            lanes_below(positioned.paths@, final(self)@.len() as int),
            distinct_colors(final(self)@),
    {
        proof {
            use_type_invariant(&*self);
        }
        let ghost before = self.lanes@;
        let ghost parents = commit.parents@;
        let mut lanes: Vec<Option<(Oid, usize)>> = Vec::new();
        core::mem::swap(&mut lanes, &mut self.lanes);
        let id = commit.id;
        let n = lanes.len();
        let (position, color) = find_entry(&lanes, &id);
        proof {
            lemma_entry(before, id);
        }

        let mut paths: Vec<(BranchPath, usize)> = Vec::new();
        let mut i: usize = 0;
        while i < n
            invariant
                i <= n,
                n == lanes.len(),
                lanes@ == before,
                paths@ == base_paths(before, id, i as int),
            decreases n - i,
        {
            match &lanes[i] {
                Some(slot) => {
                    if slot.0.same(&id) {
                        paths.push((BranchPath::Base(i), slot.1));
                    }
                },
                None => {},
            }
            i += 1;
        }
        let ghost base = paths@;
        i = 0;
        while i < n
            invariant
                i <= n,
                n == lanes.len(),
                lanes@ == before,
                paths@ == base + follow_paths(before, id, i as int),
            decreases n - i,
        {
            match &lanes[i] {
                Some(slot) => {
                    if !slot.0.same(&id) {
                        paths.push((BranchPath::Follow(i), slot.1));
                        assert(paths@ =~= base + follow_paths(before, id, i + 1));
                    }
                },
                None => {},
            }
            i += 1;
        }
        i = 0;
        while i < n
            invariant
                i <= n,
                n == lanes.len(),
                n == before.len(),
                forall|j: int| 0 <= j < i ==> lanes@[j] == retire(before, id)[j],
                forall|j: int| i <= j < n ==> lanes@[j] == before[j],
            decreases n - i,
        {
            let hit = match &lanes[i] {
                Some(slot) => slot.0.same(&id),
                None => false,
            };
            if hit {
                lanes[i] = None;
            }
            i += 1;
        }
        assert(lanes@ =~= retire(before, id));

        if commit.parents.len() > 0 {
            put(&mut lanes, position, (commit.parents[0], color));
            paths.push((BranchPath::Parent(position), color));
            let mut k: usize = 1;
            while k < commit.parents.len()
                invariant
                    1 <= k <= commit.parents.len(),
                    parents == commit.parents@,
                    attach_parents((Row { lanes: lanes@, paths: paths@ }), parents, k as int) == (Row {
                        lanes: layout_step(before, id, parents).lanes,
                        paths: layout_step(before, id, parents).paths,
                    }),
                decreases commit.parents.len() - k,
            {
                let parent = commit.parents[k];
                let (lane, lane_color) = find_entry(&lanes, &parent);
                proof {
                    lemma_entry(lanes@, parent);
                }
                put(&mut lanes, lane, (parent, lane_color));
                paths.push((BranchPath::Parent(lane), lane_color));
                k += 1;
            }
        }
        proof {
            assert(lanes@ == layout_step(before, id, parents).lanes);
            assert(paths@ == layout_step(before, id, parents).paths);
            assert(lanes@.len() == lanes.len());
            lemma_step_paths_in_range(before, id, parents);
            lemma_step_takes_its_place(before, id, parents);
            lemma_step_keeps_colors_distinct(before, id, parents);
        }
        self.lanes = lanes;
        PositionedCommit { commit, position, paths }
    }
}


/// The lanes after the first `k` commits of a run that starts without lanes.
pub open spec fn lanes_before(commits: Seq<CommitInfo>, k: int) -> Seq<Option<(Oid, usize)>>
    decreases k,
{
    if k <= 0 {
        Seq::empty()
    } else {
        layout_step(lanes_before(commits, k - 1), commits[k - 1].id, commits[k - 1].parents@).lanes
    }
}

/// The row of commit `k` in a run over `commits`.
pub open spec fn row_of(commits: Seq<CommitInfo>, k: int) -> Step {
    layout_step(lanes_before(commits, k), commits[k].id, commits[k].parents@)
}

/// In a run, the lane of every commit is one of the lanes seen so far or
/// the next new one: its position is at most the number of lanes before the
/// commit. The number of lanes never falls.
pub proof fn lemma_run_position_in_range(commits: Seq<CommitInfo>, k: int)
    requires
        0 <= k < commits.len(),
    ensures
        0 <= row_of(commits, k).position <= lanes_before(commits, k).len(),
        lanes_before(commits, k).len() <= lanes_before(commits, k + 1).len(),
{
    lemma_step_position_in_range(lanes_before(commits, k), commits[k].id, commits[k].parents@);
}

/// In a run, no color is ever held by two occupied lanes: it holds of the
/// lanes after any number of commits, as long as the lanes can be counted
/// in a `usize`.
pub proof fn lemma_run_keeps_colors_distinct(commits: Seq<CommitInfo>, k: int)
    requires
        0 <= k <= commits.len(),
        lanes_before(commits, k).len() <= usize::MAX,
    ensures
        distinct_colors(lanes_before(commits, k)),
    decreases k,
{
    if k > 0 {
        lemma_run_position_in_range(commits, k - 1);
        lemma_run_keeps_colors_distinct(commits, k - 1);
        lemma_step_keeps_colors_distinct(
            lanes_before(commits, k - 1),
            commits[k - 1].id,
            commits[k - 1].parents@,
        );
    }
}

/// Lays out a whole run: the commits in the given order, each with its lane
/// and the segments of its row. Every commit stands at its place among the
/// lanes before it, and at no point of the run is a color held by two
/// occupied lanes.
pub fn get_positioned_commits(commits: Vec<CommitInfo>) -> (positioned: Vec<PositionedCommit>)
    ensures
        positioned@.len() == commits@.len(),
        forall|k: int|
            0 <= k < commits@.len() ==> {
                &&& (#[trigger] positioned@[k]).commit == commits@[k]
                &&& positioned@[k].position == row_of(commits@, k).position
                &&& positioned@[k].paths@ == row_of(commits@, k).paths
                &&& positioned@[k].position <= lanes_before(commits@, k).len()
                &&& takes_its_place(
                    lanes_before(commits@, k),
                    commits@[k].id,
                    positioned@[k].position as int,
                )
            },
        forall|k: int|
            0 <= k <= commits@.len() ==> distinct_colors(#[trigger] lanes_before(commits@, k)),
{
    let ghost all = commits@;
    let mut positioner = CommitPositioner::new();
    let mut positioned: Vec<PositionedCommit> = Vec::new();
    for commit in it: commits
        invariant
            it.seq() == all,
            positioner@ == lanes_before(all, it.index()),
            positioned@.len() == it.index(),
            forall|k: int|
                0 <= k < it.index() ==> {
                    &&& (#[trigger] positioned@[k]).commit == all[k]
                    &&& positioned@[k].position == row_of(all, k).position
                    &&& positioned@[k].paths@ == row_of(all, k).paths
                    &&& positioned@[k].position <= lanes_before(all, k).len()
                    &&& takes_its_place(
                        lanes_before(all, k),
                        all[k].id,
                        positioned@[k].position as int,
                    )
                },
            forall|k: int|
                0 <= k <= it.index() ==> distinct_colors(#[trigger] lanes_before(all, k)),
    {
        let row = positioner.position_commit(commit);
        positioned.push(row);
    }
    positioned
}

} // verus!
