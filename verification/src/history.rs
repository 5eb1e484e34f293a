//! File history: which commits changed the content of one path.
//!
//! The trace walks backward from a starting commit. Its frontier holds the
//! commits still to be looked at, each with its commit time; the one with the
//! greatest time is taken first, and among equal times the one that entered
//! the frontier first. A commit is looked at once.

use crate::oid::Oid;
use crate::oid_set::OidSet;
use crate::store::CommitStore;
use vstd::prelude::*;

verus! {

/// A point of the frontier: the traced path and the commit at which to look
/// it up.
#[derive(Clone, Debug, PartialEq, Eq)]
pub struct HistoryHead {
    pub path: String,
    pub oid: Oid,
}

/// What the object store says of one parent of a commit.
#[derive(Clone, Copy, Debug, PartialEq, Eq)]
pub struct ParentEntry {
    pub oid: Oid,
    /// Commit time of the parent.
    pub time: i64,
    /// The blob at the traced path in the parent's tree, if the path is
    /// there.
    pub blob: Option<Oid>,
}

/// What the object store says of the commit of a head.
#[derive(Clone, Debug, PartialEq, Eq)]
pub struct Inspection {
    /// The blob at the traced path in the commit's tree, if the path is
    /// there.
    pub blob: Option<Oid>,
    /// The parents in order; `None` for a parent that could not be read.
    pub parents: Vec<Option<ParentEntry>>,
}

/// Why a call on a repository failed, with the message of the object store.
#[derive(Clone, Debug, PartialEq, Eq)]
pub enum RepositoryError {
    /// A reference, commit or path that was needed does not exist.
    NotFound(String),
    /// The store could not be read.
    Io(String),
    /// An object was read but is not well formed.
    Corrupt(String),
}

/// The code with which the object store reports that something does not
/// exist.
pub const CODE_NOT_FOUND: i32 = -3;

/// The code with which the object store reports that HEAD points at a
/// branch without commits.
pub const CODE_UNBORN_BRANCH: i32 = -9;

/// The class of the errors of the operating system.
pub const CLASS_OS: i32 = 2;

/// The class of the errors of the file system.
pub const CLASS_FILESYSTEM: i32 = 30;

impl RepositoryError {
    /// The message of the failure.
    pub open spec fn text(self) -> Seq<char> {
        match self {
            RepositoryError::NotFound(message) => message@,
            RepositoryError::Io(message) => message@,
            RepositoryError::Corrupt(message) => message@,
        }
    }

    /// The failure that an error of the object store stands for, by the
    /// code and the class of the error: what does not exist is `NotFound`;
    /// of the rest, what the operating system or the file system refused is
    /// `Io`; everything else is `Corrupt`.
    pub open spec fn classified(code: i32, class: i32, message: String) -> RepositoryError {
        if code == CODE_NOT_FOUND || code == CODE_UNBORN_BRANCH {
            RepositoryError::NotFound(message)
        } else if class == CLASS_OS || class == CLASS_FILESYSTEM {
            RepositoryError::Io(message)
        } else {
            RepositoryError::Corrupt(message)
        }
    }

    /// The failure that an error of the object store stands for.
    pub fn classify(code: i32, class: i32, message: String) -> (error: RepositoryError)
        ensures
            error == Self::classified(code, class, message),
    {
        if code == CODE_NOT_FOUND || code == CODE_UNBORN_BRANCH {
            RepositoryError::NotFound(message)
        } else if class == CLASS_OS || class == CLASS_FILESYSTEM {
            RepositoryError::Io(message)
        } else {
            RepositoryError::Corrupt(message)
        }
    }

    /// The message of the object store.
    pub fn message(&self) -> (message: &String)
        ensures
            *message == match *self {
                RepositoryError::NotFound(text) => text,
                RepositoryError::Io(text) => text,
                RepositoryError::Corrupt(text) => text,
            },
    {
        match self {
            RepositoryError::NotFound(text) => text,
            RepositoryError::Io(text) => text,
            RepositoryError::Corrupt(text) => text,
        }
    }
}

/// Whether a commit is a change point of the path: the path is in its tree
/// and the commit is a root, or its only parent lacks the path, holds another
/// blob there, or could not be read. A commit with two or more parents is
/// never one.
pub open spec fn reports(blob: Option<Oid>, parents: Seq<Option<ParentEntry>>) -> bool {
    &&& blob is Some
    &&& parents.len() <= 1
    &&& parents.len() == 1 ==> (match parents[0] {
        Some(parent) => parent.blob != blob,
        None => true,
    })
}

/// Whether the trace goes on at parent `k`: the path is in the commit's
/// tree, the parent could be read, and the commit is a merge or the parent
/// holds the path too.
pub open spec fn follows(blob: Option<Oid>, parents: Seq<Option<ParentEntry>>, k: int) -> bool {
    &&& blob is Some
    &&& 0 <= k < parents.len()
    &&& parents[k] matches Some(parent)
    &&& (parents.len() >= 2 || parent.blob is Some)
}

/// What the first `upto` parents add to the frontier, in the order of the
/// parents: each parent at which the trace goes on, with its commit time.
pub open spec fn pushed_heads(blob: Option<Oid>, parents: Seq<Option<ParentEntry>>, upto: int) -> Seq<
    (i64, Oid),
>
    decreases upto,
{
    if upto <= 0 {
        Seq::empty()
    } else {
        let before = pushed_heads(blob, parents, upto - 1);
        if follows(blob, parents, upto - 1) {
            before.push((parents[upto - 1].unwrap().time, parents[upto - 1].unwrap().oid))
        } else {
            before
        }
    }
}

/// The first entry with the greatest time among the first `upto` entries.
pub open spec fn newest_upto(frontier: Seq<(i64, Oid)>, upto: int) -> int
    decreases upto,
{
    if upto <= 1 {
        0
    } else {
        let best = newest_upto(frontier, upto - 1);
        if frontier[upto - 1].0 > frontier[best].0 {
            upto - 1
        } else {
            best
        }
    }
}

/// The entry that leaves the frontier next: the first one with the greatest
/// time.
pub open spec fn newest(frontier: Seq<(i64, Oid)>) -> int {
    newest_upto(frontier, frontier.len() as int)
}

/// `newest_upto` is the first index with the greatest time.
pub proof fn lemma_newest_upto(frontier: Seq<(i64, Oid)>, upto: int)
    requires
        1 <= upto <= frontier.len(),
    ensures
        0 <= newest_upto(frontier, upto) < upto,
        forall|j: int|
            0 <= j < upto ==> (#[trigger] frontier[j]).0 <= frontier[newest_upto(frontier, upto)].0,
        forall|j: int|
            0 <= j < newest_upto(frontier, upto) ==> (#[trigger] frontier[j]).0
                < frontier[newest_upto(frontier, upto)].0,
    decreases upto,
{
    if upto > 1 {
        lemma_newest_upto(frontier, upto - 1);
    }
}

/// The frontier and the visited commits between two steps of a trace.
pub struct TraceState {
    pub frontier: Seq<(i64, Oid)>,
    pub visited: Set<Oid>,
}

/// What taking the next head gives: the commit to look at, if one is left
/// that was not visited, and the frontier after it.
pub struct Taken {
    pub head: Option<Oid>,
    pub rest: Seq<(i64, Oid)>,
}

/// Takes entries off the frontier, newest first, until one comes whose
/// commit was not visited yet. Entries of visited commits are dropped.
pub open spec fn take_head(frontier: Seq<(i64, Oid)>, visited: Set<Oid>) -> Taken
    decreases frontier.len(),
{
    if frontier.len() == 0 {
        Taken { head: None, rest: frontier }
    } else {
        let head = frontier[newest(frontier)].1;
        let rest = frontier.remove(newest(frontier));
        if visited.contains(head) {
            proof {
                lemma_newest_upto(frontier, frontier.len() as int);
            }
            take_head(rest, visited)
        } else {
            Taken { head: Some(head), rest }
        }
    }
}

/// Taking a head shortens the frontier; the head was not visited; without a
/// head the frontier is empty.
pub proof fn lemma_take_head(frontier: Seq<(i64, Oid)>, visited: Set<Oid>)
    ensures
        take_head(frontier, visited).rest.len() <= frontier.len(),
        take_head(frontier, visited).head is None ==> take_head(frontier, visited).rest.len() == 0,
        take_head(frontier, visited).head matches Some(head) ==> !visited.contains(head)
            && take_head(frontier, visited).rest.len() < frontier.len(),
    decreases frontier.len(),
{
    if frontier.len() > 0 {
        lemma_newest_upto(frontier, frontier.len() as int);
        let at = newest(frontier);
        if visited.contains(frontier[at].1) {
            lemma_take_head(frontier.remove(at), visited);
        }
    }
}

/// The trace as the consumer drives it: it hands out the next commit to look
/// at, and takes back what the object store says of that commit.
pub struct HistoryIterator {
    path: String,
    frontier: Vec<(i64, Oid)>,
    visited: OidSet,
}

impl View for HistoryIterator {
    type V = TraceState;

    closed spec fn view(&self) -> TraceState {
        TraceState { frontier: self.frontier@, visited: self.visited@ }
    }
}

/// Whether two optional blob ids are the same.
fn same_blob(a: &Option<Oid>, b: &Option<Oid>) -> (same: bool)
    ensures
        same == (*a == *b),
{
    match (a, b) {
        (Some(x), Some(y)) => x.same(y),
        (None, None) => true,
        _ => false,
    }
}

/// The index of the first entry with the greatest time.
fn newest_index(frontier: &Vec<(i64, Oid)>) -> (at: usize)
    requires
        frontier@.len() > 0,
    ensures
        at == newest(frontier@),
        at < frontier@.len(),
{
    let mut best: usize = 0;
    let mut i: usize = 1;
    while i < frontier.len()
        invariant
            1 <= i <= frontier.len(),
            best == newest_upto(frontier@, i as int),
            best < i,
        decreases frontier.len() - i,
    {
        if frontier[i].0 > frontier[best].0 {
            best = i;
        }
        i += 1;
    }
    best
}

impl HistoryIterator {
    /// The traced path.
    pub closed spec fn path_view(&self) -> Seq<char> {
        self.path@
    }

    /// A trace of `path` that starts at the commit `start`, whose commit time
    /// is `time`.
    pub fn new(path: String, start: Oid, time: i64) -> (iterator: HistoryIterator)
        ensures
            iterator.path_view() == path@,
            iterator@ == (TraceState { frontier: seq![(time, start)], visited: Set::empty() }),
    {
        let mut frontier: Vec<(i64, Oid)> = Vec::new();
        frontier.push((time, start));
        assert(frontier@ =~= seq![(time, start)]);
        HistoryIterator { path, frontier, visited: OidSet::new() }
    }

    /// The traced path.
    pub fn path(&self) -> (path: &String)
        ensures
            path@ == self.path_view(),
    {
        &self.path
    }

    /// Whether the frontier is empty: the trace has ended.
    pub fn is_done(&self) -> (done: bool)
        ensures
            done == (self@.frontier.len() == 0),
    {
        self.frontier.len() == 0
    }

    /// Takes the next head off the frontier and marks its commit visited.
    /// Heads of commits that were visited before are dropped on the way.
    /// Without a head the trace has ended.
    pub fn next_head(&mut self) -> (head: Option<HistoryHead>)
        ensures
            final(self).path_view() == old(self).path_view(),
            final(self)@.frontier == take_head(old(self)@.frontier, old(self)@.visited).rest,
            match head {
                Some(taken) => taken.path@ == old(self).path_view() && Some(taken.oid) == take_head(
                    old(self)@.frontier,
                    old(self)@.visited,
                ).head && final(self)@.visited == old(self)@.visited.insert(taken.oid),
                None => take_head(old(self)@.frontier, old(self)@.visited).head is None
                    && final(self)@.visited == old(self)@.visited,
            },
    {
        let ghost start = self.frontier@;
        let ghost visited = self.visited@;
        while self.frontier.len() > 0
            invariant
                self.path == old(self).path,
                visited == old(self).visited@,
                visited == self.visited@,
                start == old(self).frontier@,
                take_head(self.frontier@, visited) == take_head(start, visited),
            decreases self.frontier.len(),
        {
            let ghost waiting = self.frontier@;
            let at = newest_index(&self.frontier);
            let entry = self.frontier.remove(at);
            assert(entry == waiting[at as int]);
            assert(self.frontier@ == waiting.remove(at as int));
            if !self.visited.contains(&entry.1) {
                proof {
                    assert(take_head(waiting, visited) == (Taken {
                        head: Some(entry.1),
                        rest: self.frontier@,
                    }));
                }
                self.visited.insert(entry.1);
                return Some(HistoryHead { path: self.path.clone(), oid: entry.1 });
            }
        }
        None
    }

    /// Takes in what the object store says of the commit of `head`: the
    /// parents at which the trace goes on enter the frontier, and the commit
    /// is returned if it is a change point of the path. A merge is never
    /// returned.
    pub fn advance(&mut self, head: &HistoryHead, inspection: &Inspection) -> (found: Option<Oid>)
        ensures
            final(self).path_view() == old(self).path_view(),
            final(self)@.visited == old(self)@.visited,
            final(self)@.frontier == old(self)@.frontier + pushed_heads(
                inspection.blob,
                inspection.parents@,
                inspection.parents@.len() as int,
            ),
            found == if reports(inspection.blob, inspection.parents@) {
                Some(head.oid)
            } else {
                None
            },
            found is Some ==> inspection.parents@.len() <= 1,
    {
        let ghost before = self.frontier@;
        let count = inspection.parents.len();
        let present = inspection.blob.is_some();
        let mut k: usize = 0;
        while k < count
            invariant
                k <= count,
                count == inspection.parents@.len(),
                present == (inspection.blob is Some),
                self.path == old(self).path,
                self.visited@ == old(self).visited@,
                self.frontier@ == before + pushed_heads(
                    inspection.blob,
                    inspection.parents@,
                    k as int,
                ),
            decreases count - k,
        {
            match &inspection.parents[k] {
                Some(parent) => {
                    if present && (count >= 2 || parent.blob.is_some()) {
                        self.frontier.push((parent.time, parent.oid));
                        assert(self.frontier@ =~= before + pushed_heads(
                            inspection.blob,
                            inspection.parents@,
                            k + 1,
                        ));
                    }
                },
                None => {},
            }
            k += 1;
        }
        let changed = if !present {
            false
        } else if count == 0 {
            true
        } else if count == 1 {
            match &inspection.parents[0] {
                Some(parent) => !same_blob(&parent.blob, &inspection.blob),
                None => true,
            }
        } else {
            false
        };
        if changed {
            Some(head.oid)
        } else {
            None
        }
    }
}


/// One step of a trace of `path` over a store: the next head leaves the
/// frontier and its commit is visited; if the store holds the commit, the
/// parents at which the trace goes on enter the frontier. Without a head the
/// frontier ends up empty.
pub open spec fn trace_step(store: &CommitStore, path: Seq<char>, state: TraceState) -> TraceState {
    let taken = take_head(state.frontier, state.visited);
    match taken.head {
        None => TraceState { frontier: taken.rest, visited: state.visited },
        Some(head) => TraceState {
            frontier: if store.knows(head) {
                taken.rest + pushed_heads(
                    store.blob_at(head, path),
                    store.parent_entries(head, path),
                    store.parent_entries(head, path).len() as int,
                )
            } else {
                taken.rest
            },
            visited: state.visited.insert(head),
        },
    }
}

/// The commit that a step reports: the commit of the head, if the store
/// holds it and it is a change point of the path.
pub open spec fn step_report(store: &CommitStore, path: Seq<char>, state: TraceState) -> Option<Oid> {
    match take_head(state.frontier, state.visited).head {
        Some(head) => if store.knows(head) && reports(
            store.blob_at(head, path),
            store.parent_entries(head, path),
        ) {
            Some(head)
        } else {
            None
        },
        None => None,
    }
}

/// The state after a number of steps.
pub open spec fn run_state(store: &CommitStore, path: Seq<char>, state: TraceState, steps: nat) -> TraceState
    decreases steps,
{
    if steps == 0 {
        state
    } else {
        trace_step(store, path, run_state(store, path, state, (steps - 1) as nat))
    }
}

/// The commits that a number of steps report, in the order of the steps.
pub open spec fn run_found(store: &CommitStore, path: Seq<char>, state: TraceState, steps: nat) -> Seq<
    Oid,
>
    decreases steps,
{
    if steps == 0 {
        Seq::empty()
    } else {
        let before = run_found(store, path, state, (steps - 1) as nat);
        match step_report(store, path, run_state(store, path, state, (steps - 1) as nat)) {
            Some(id) => before.push(id),
            None => before,
        }
    }
}

/// The state in which a trace starts at the commit `first`.
pub open spec fn start_state(store: &CommitStore, first: Oid) -> TraceState {
    TraceState { frontier: seq![(store.commit_of(first).time, first)], visited: Set::empty() }
}

/// Whether `found` is the history of `path` from the commit `first`: what
/// the steps of the trace report until the frontier is empty.
pub open spec fn is_history(store: &CommitStore, path: Seq<char>, first: Oid, found: Seq<Oid>) -> bool {
    exists|steps: nat|
        run_state(store, path, start_state(store, first), steps).frontier.len() == 0
            && #[trigger] run_found(store, path, start_state(store, first), steps) == found
}

/// How much of a trace is left at most: the commits of the store that were
/// not visited.
pub open spec fn unvisited(store: &CommitStore, state: TraceState) -> nat {
    store.ids().difference(state.visited).len()
}

/// A step that takes a head visits one more commit of the store, or leaves
/// the unvisited ones alone and shortens the frontier.
pub proof fn lemma_step_decreases(store: &CommitStore, path: Seq<char>, state: TraceState)
    requires
        take_head(state.frontier, state.visited).head is Some,
    ensures
        unvisited(store, trace_step(store, path, state)) < unvisited(store, state) || (unvisited(
            store,
            trace_step(store, path, state),
        ) == unvisited(store, state) && trace_step(store, path, state).frontier.len()
            < state.frontier.len()),
{
    let head = take_head(state.frontier, state.visited).head.unwrap();
    let left = store.ids().difference(state.visited);
    let after = store.ids().difference(state.visited.insert(head));
    lemma_take_head(state.frontier, state.visited);
    store.lemma_ids_finite();
    vstd::set_lib::lemma_len_difference(store.ids(), state.visited);
    assert(left.finite()) by {
        vstd::set_lib::lemma_len_subset(left, store.ids());
    }
    if store.knows(head) {
        assert(after =~= left.remove(head));
        assert(left.contains(head));
        vstd::set::axiom_set_remove_len(left, head);
    } else {
        assert(after =~= left);
    }
}

/// Once the frontier is empty, further steps change nothing and report
/// nothing.
pub proof fn lemma_run_past_end(
    store: &CommitStore,
    path: Seq<char>,
    state: TraceState,
    ended: nat,
    later: nat,
)
    requires
        ended <= later,
        run_state(store, path, state, ended).frontier.len() == 0,
    ensures
        run_state(store, path, state, later) == run_state(store, path, state, ended),
        run_found(store, path, state, later) == run_found(store, path, state, ended),
    decreases later - ended,
{
    if ended < later {
        lemma_run_past_end(store, path, state, ended, (later - 1) as nat);
        let last = run_state(store, path, state, (later - 1) as nat);
        assert(take_head(last.frontier, last.visited).head is None);
        assert(trace_step(store, path, last).frontier =~= last.frontier);
    }
}

/// The history of a path from a commit is one sequence: two traces over the
/// same store report the same commits in the same order.
pub proof fn lemma_history_unique(
    store: &CommitStore,
    path: Seq<char>,
    first: Oid,
    one: Seq<Oid>,
    other: Seq<Oid>,
)
    requires
        is_history(store, path, first, one),
        is_history(store, path, first, other),
    ensures
        one == other,
{
    let start = start_state(store, first);
    let n = choose|steps: nat|
        run_state(store, path, start, steps).frontier.len() == 0 && #[trigger] run_found(
            store,
            path,
            start,
            steps,
        ) == one;
    let m = choose|steps: nat|
        run_state(store, path, start, steps).frontier.len() == 0 && #[trigger] run_found(
            store,
            path,
            start,
            steps,
        ) == other;
    if n <= m {
        lemma_run_past_end(store, path, start, n, m);
    } else {
        lemma_run_past_end(store, path, start, m, n);
    }
}

/// No step reports a merge: every reported commit is in the store and has at
/// most one parent.
pub proof fn lemma_history_has_no_merge(
    store: &CommitStore,
    path: Seq<char>,
    state: TraceState,
    steps: nat,
)
    ensures
        forall|i: int|
            0 <= i < run_found(store, path, state, steps).len() ==> store.knows(
                #[trigger] run_found(store, path, state, steps)[i],
            ) && store.commit_of(run_found(store, path, state, steps)[i]).parents@.len() <= 1,
    decreases steps,
{
    if steps > 0 {
        lemma_history_has_no_merge(store, path, state, (steps - 1) as nat);
        let before = run_found(store, path, state, (steps - 1) as nat);
        let found = run_found(store, path, state, steps);
        let last = run_state(store, path, state, (steps - 1) as nat);
        assert forall|i: int| 0 <= i < found.len() implies store.knows(#[trigger] found[i])
            && store.commit_of(found[i]).parents@.len() <= 1 by {
            if i < before.len() {
                assert(found[i] == before[i]);
            } else {
                let head = step_report(store, path, last).unwrap();
                assert(found[i] == head);
                assert(store.parent_entries(head, path).len() == store.commit_of(
                    head,
                ).parents@.len());
            }
        }
    }
}


/// Whether no commit of the store is older than a parent of it that the
/// store holds.
pub open spec fn time_ordered(store: &CommitStore) -> bool {
    forall|id: Oid, k: int|
        store.knows(id) && 0 <= k < store.commit_of(id).parents@.len() && store.knows(
            #[trigger] store.commit_of(id).parents@[k],
        ) ==> store.commit_of(store.commit_of(id).parents@[k]).time <= store.commit_of(id).time
}

/// Whether every entry of the frontier is a commit of the store with its
/// commit time.
pub open spec fn times_match(store: &CommitStore, frontier: Seq<(i64, Oid)>) -> bool {
    forall|i: int|
        0 <= i < frontier.len() ==> store.knows((#[trigger] frontier[i]).1) && frontier[i].0
            == store.commit_of(frontier[i].1).time
}

/// Whether no entry of the frontier is newer than `bound`.
pub open spec fn none_newer(frontier: Seq<(i64, Oid)>, bound: int) -> bool {
    forall|i: int| 0 <= i < frontier.len() ==> (#[trigger] frontier[i]).0 <= bound
}

/// Whether the commits stand newest first: none is older than one that
/// follows it.
pub open spec fn newest_first(store: &CommitStore, found: Seq<Oid>) -> bool {
    forall|i: int, j: int|
        0 <= i < j < found.len() ==> store.commit_of(#[trigger] found[i]).time >= store.commit_of(
            #[trigger] found[j],
        ).time
}

/// The head that is taken is the newest of the frontier: no entry that is
/// left is newer.
pub proof fn lemma_take_head_newest(
    store: &CommitStore,
    frontier: Seq<(i64, Oid)>,
    visited: Set<Oid>,
    bound: int,
)
    requires
        times_match(store, frontier),
        none_newer(frontier, bound),
    ensures
        times_match(store, take_head(frontier, visited).rest),
        none_newer(take_head(frontier, visited).rest, bound),
        take_head(frontier, visited).head matches Some(head) ==> store.knows(head)
            && store.commit_of(head).time <= bound && none_newer(
            take_head(frontier, visited).rest,
            store.commit_of(head).time as int,
        ),
    decreases frontier.len(),
{
    if frontier.len() > 0 {
        lemma_newest_upto(frontier, frontier.len() as int);
        let at = newest(frontier);
        let rest = frontier.remove(at);
        assert forall|i: int| 0 <= i < rest.len() implies store.knows((#[trigger] rest[i]).1)
            && rest[i].0 == store.commit_of(rest[i].1).time && rest[i].0 <= frontier[at].0
            && rest[i].0 <= bound by {
            if i < at {
                assert(rest[i] == frontier[i]);
            } else {
                assert(rest[i] == frontier[i + 1]);
            }
        }
        if visited.contains(frontier[at].1) {
            lemma_take_head_newest(store, rest, visited, bound);
        }
    }
}

/// Whether an entry is a parent of the commit `id` that the store holds,
/// with its commit time.
pub open spec fn is_parent_entry(store: &CommitStore, id: Oid, entry: (i64, Oid)) -> bool {
    exists|k: int|
        0 <= k < store.commit_of(id).parents@.len() && store.knows(
            #[trigger] store.commit_of(id).parents@[k],
        ) && entry == (
            store.commit_of(store.commit_of(id).parents@[k]).time,
            store.commit_of(id).parents@[k],
        )
}

/// Every entry that the parents push is a parent that the store holds, with
/// its commit time.
pub proof fn lemma_pushed_heads(store: &CommitStore, path: Seq<char>, id: Oid, upto: int)
    requires
        0 <= upto <= store.commit_of(id).parents@.len(),
    ensures
        forall|i: int|
            0 <= i < pushed_heads(
                store.blob_at(id, path),
                store.parent_entries(id, path),
                upto,
            ).len() ==> is_parent_entry(
                store,
                id,
                #[trigger] pushed_heads(
                    store.blob_at(id, path),
                    store.parent_entries(id, path),
                    upto,
                )[i],
            ),
    decreases upto,
{
    if upto > 0 {
        lemma_pushed_heads(store, path, id, upto - 1);
        let blob = store.blob_at(id, path);
        let parents = store.parent_entries(id, path);
        let before = pushed_heads(blob, parents, upto - 1);
        let now = pushed_heads(blob, parents, upto);
        assert forall|i: int| 0 <= i < now.len() implies is_parent_entry(
            store,
            id,
            #[trigger] now[i],
        ) by {
            if i < before.len() {
                assert(now[i] == before[i]);
            } else {
                assert(follows(blob, parents, upto - 1));
                assert(parents[upto - 1] == store.parent_entry(
                    store.commit_of(id).parents@[upto - 1],
                    path,
                ));
                assert(store.knows(store.commit_of(id).parents@[upto - 1]));
            }
        }
    }
}

/// After any number of steps of a trace over a store whose parents are
/// never newer than their children, the reported commits stand newest
/// first, and nothing in the frontier is newer than the last of them. The
/// result is a time that no entry of the frontier exceeds and below which no
/// reported commit falls.
pub proof fn lemma_run_newest_first(
    store: &CommitStore,
    path: Seq<char>,
    first: Oid,
    steps: nat,
) -> (bound: int)
    requires
        time_ordered(store),
        store.knows(first),
    ensures
        times_match(store, run_state(store, path, start_state(store, first), steps).frontier),
        none_newer(run_state(store, path, start_state(store, first), steps).frontier, bound),
        newest_first(store, run_found(store, path, start_state(store, first), steps)),
        forall|i: int|
            0 <= i < run_found(store, path, start_state(store, first), steps).len()
                ==> store.commit_of(
                #[trigger] run_found(store, path, start_state(store, first), steps)[i],
            ).time >= bound,
    decreases steps,
{
    let start = start_state(store, first);
    if steps == 0 {
        store.commit_of(first).time as int
    } else {
        let before = lemma_run_newest_first(store, path, first, (steps - 1) as nat);
        let state = run_state(store, path, start, (steps - 1) as nat);
        let found = run_found(store, path, start, (steps - 1) as nat);
        let taken = take_head(state.frontier, state.visited);
        lemma_take_head_newest(store, state.frontier, state.visited, before);
        match taken.head {
            None => before,
            Some(head) => {
                let time = store.commit_of(head).time as int;
                let next = trace_step(store, path, state);
                let pushed = pushed_heads(
                    store.blob_at(head, path),
                    store.parent_entries(head, path),
                    store.parent_entries(head, path).len() as int,
                );
                lemma_pushed_heads(
                    store,
                    path,
                    head,
                    store.commit_of(head).parents@.len() as int,
                );
                assert forall|i: int| 0 <= i < next.frontier.len() implies store.knows(
                    (#[trigger] next.frontier[i]).1,
                ) && next.frontier[i].0 == store.commit_of(next.frontier[i].1).time
                    && next.frontier[i].0 <= time by {
                    if i < taken.rest.len() {
                        assert(next.frontier[i] == taken.rest[i]);
                    } else {
                        let at = i - taken.rest.len();
                        assert(next.frontier[i] == pushed[at]);
                        assert(is_parent_entry(store, head, pushed[at]));
                        let k = choose|k: int|
                            0 <= k < store.commit_of(head).parents@.len() && store.knows(
                                #[trigger] store.commit_of(head).parents@[k],
                            ) && pushed[at] == (
                                store.commit_of(store.commit_of(head).parents@[k]).time,
                                store.commit_of(head).parents@[k],
                            );
                        assert(store.knows(store.commit_of(head).parents@[k]));
                    }
                }
                let now = run_found(store, path, start, steps);
                assert forall|i: int| 0 <= i < now.len() implies store.commit_of(
                    #[trigger] now[i],
                ).time >= time by {
                    if i < found.len() {
                        assert(now[i] == found[i]);
                    }
                }
                assert forall|i: int, j: int| 0 <= i < j < now.len() implies store.commit_of(
                    #[trigger] now[i],
                ).time >= store.commit_of(#[trigger] now[j]).time by {
                    assert(now[i] == found[i]);
                    if j < found.len() {
                        assert(now[j] == found[j]);
                    }
                }
                time
            },
        }
    }
}

/// The history of a path stands newest first, if no commit of the store is
/// older than one of its parents.
pub proof fn lemma_history_newest_first(
    store: &CommitStore,
    path: Seq<char>,
    first: Oid,
    found: Seq<Oid>,
)
    requires
        time_ordered(store),
        store.knows(first),
        is_history(store, path, first, found),
    ensures
        newest_first(store, found),
{
    let steps = choose|steps: nat|
        run_state(store, path, start_state(store, first), steps).frontier.len() == 0
            && #[trigger] run_found(store, path, start_state(store, first), steps) == found;
    lemma_run_newest_first(store, path, first, steps);
}

impl HistoryIterator {
    /// One step of the trace over a store. Returns whether a head was
    /// taken, and the commit that the step reports.
    fn step(&mut self, store: &CommitStore) -> (outcome: (bool, Option<Oid>))
        ensures
            final(self).path_view() == old(self).path_view(),
            final(self)@ == trace_step(store, old(self).path_view(), old(self)@),
            outcome.1 == step_report(store, old(self).path_view(), old(self)@),
            outcome.0 == (take_head(old(self)@.frontier, old(self)@.visited).head is Some),
            !outcome.0 ==> final(self)@.frontier.len() == 0,
    {
        proof {
            lemma_take_head(self@.frontier, self@.visited);
        }
        match self.next_head() {
            None => (false, None),
            Some(head) => {
                match store.inspect(&head.oid, &head.path) {
                    Some(inspection) => {
                        let found = self.advance(&head, &inspection);
                        (true, found)
                    },
                    None => (true, None),
                }
            },
        }
    }

    /// The next commit of the history, or nothing when the trace has ended:
    /// the trace steps on until a step reports a commit or the frontier is
    /// empty. The commit is no merge.
    pub fn next(&mut self, store: &CommitStore) -> (found: Option<Oid>)
        ensures
            final(self).path_view() == old(self).path_view(),
            exists|steps: nat|
                {
                    &&& final(self)@ == #[trigger] run_state(
                        store,
                        old(self).path_view(),
                        old(self)@,
                        steps,
                    )
                    &&& match found {
                        Some(id) => steps >= 1 && run_found(
                            store,
                            old(self).path_view(),
                            old(self)@,
                            steps,
                        ) == seq![id] && run_found(
                            store,
                            old(self).path_view(),
                            old(self)@,
                            (steps - 1) as nat,
                        ) == Seq::<Oid>::empty(),
                        None => run_found(store, old(self).path_view(), old(self)@, steps)
                            == Seq::<Oid>::empty() && final(self)@.frontier.len() == 0,
                    }
                },
            found matches Some(id) ==> store.knows(id) && store.commit_of(id).parents@.len() <= 1,
    {
        let ghost path = self.path_view();
        let ghost start = self@;
        let ghost mut steps: nat = 0;
        loop
            invariant
                self.path_view() == path,
                path == old(self).path_view(),
                start == old(self)@,
                self@ == run_state(store, path, start, steps),
                run_found(store, path, start, steps) == Seq::<Oid>::empty(),
            decreases unvisited(store, self@), self@.frontier.len(),
        {
            let ghost before = self@;
            let (took, report) = self.step(store);
            proof {
                steps = steps + 1;
                if took {
                    lemma_step_decreases(store, path, before);
                }
                assert(self@ == run_state(store, path, start, steps));
            }
            if !took {
                return None;
            }
            match report {
                Some(id) => {
                    proof {
                        assert(run_found(store, path, start, steps) =~= seq![id]);
                        lemma_history_has_no_merge(store, path, start, steps);
                        assert(run_found(store, path, start, steps)[0] == id);
                    }
                    return Some(id);
                },
                None => {},
            }
        }
    }
}

/// The message of a trace that cannot start: HEAD points at no commit, or
/// the starting commit is not in the store.
pub open spec fn missing_start(no_head: bool) -> Seq<char> {
    if no_head {
        "reference 'HEAD' not found"@
    } else {
        "commit not found"@
    }
}

/// Starts a trace of `path` over a store, at the given commit or at HEAD if
/// none is given. Fails if that commit is not in the store.
pub fn get_history_walker(store: &CommitStore, path: &str, commit_id: Option<Oid>) -> (walker:
    Result<HistoryIterator, RepositoryError>)
    ensures
        match walker {
            Ok(iterator) => store.start_of(commit_id) matches Some(first) && iterator@
                == start_state(store, first) && iterator.path_view() == path@,
            Err(error) => {
                &&& store.start_of(commit_id) is None
                &&& error matches RepositoryError::NotFound(message)
                &&& message@ == missing_start(commit_id is None && store.head is None)
            },
        },
{
    let wanted = match commit_id {
        Some(id) => Some(id),
        None => store.head,
    };
    match wanted {
        Some(id) => {
            match store.find(&id) {
                Some(index) => Ok(
                    HistoryIterator::new(path.to_owned(), id, store.commits[index].time),
                ),
                None => Err(RepositoryError::NotFound("commit not found".to_owned())),
            }
        },
        None => Err(RepositoryError::NotFound("reference 'HEAD' not found".to_owned())),
    }
}

/// The history of `path`: the commits that changed its content, from the
/// given commit (or HEAD) backward, in the order in which the trace comes
/// upon them. No merge is among them. They stand newest first, if no commit
/// of the store is older than one of its parents. Fails if the starting
/// commit is not in the store.
pub fn get_history(store: &CommitStore, file_path: &str, commit_id: Option<Oid>) -> (history:
    Result<Vec<Oid>, RepositoryError>)
    ensures
        match history {
            Ok(found) => store.start_of(commit_id) matches Some(first) && is_history(
                store,
                file_path@,
                first,
                found@,
            ) && forall|i: int|
                0 <= i < found@.len() ==> store.knows(#[trigger] found@[i]) && store.commit_of(
                    found@[i],
                ).parents@.len() <= 1,
            Err(error) => {
                &&& store.start_of(commit_id) is None
                &&& error matches RepositoryError::NotFound(message)
                &&& message@ == missing_start(commit_id is None && store.head is None)
            },
        },
        history matches Ok(found) ==> (time_ordered(store) ==> newest_first(store, found@)),
{
    let mut walker = match get_history_walker(store, file_path, commit_id) {
        Ok(walker) => walker,
        Err(error) => {
            return Err(error);
        },
    };
    let ghost first = store.start_of(commit_id).unwrap();
    let ghost start = walker@;
    let ghost mut steps: nat = 0;
    let mut found: Vec<Oid> = Vec::new();
    loop
        invariant
            walker.path_view() == file_path@,
            store.start_of(commit_id) == Some(first),
            start == start_state(store, first),
            walker@ == run_state(store, file_path@, start, steps),
            found@ == run_found(store, file_path@, start, steps),
        decreases unvisited(store, walker@), walker@.frontier.len(),
    {
        let ghost before = walker@;
        let (took, report) = walker.step(store);
        proof {
            steps = steps + 1;
            if took {
                lemma_step_decreases(store, file_path@, before);
            }
        }
        match report {
            Some(id) => {
                found.push(id);
            },
            None => {},
        }
        if !took {
            proof {
                lemma_history_has_no_merge(store, file_path@, start, steps);
                assert(run_found(store, file_path@, start_state(store, first), steps) == found@);
                assert(is_history(store, file_path@, first, found@));
                if time_ordered(store) {
                    lemma_history_newest_first(store, file_path@, first, found@);
                }
            }
            return Ok(found);
        }
    }
}

} // verus!
