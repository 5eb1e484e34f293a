//! An object store held in memory: commits with their trees, by id.

use crate::history::{Inspection, ParentEntry};
use crate::oid::Oid;
use vstd::prelude::*;

verus! {

/// One file of a tree: its path and the blob that holds its content.
#[derive(Clone, Debug, PartialEq, Eq)]
pub struct TreeEntry {
    pub path: String,
    pub blob: Oid,
}

/// A commit with the files of its tree.
#[derive(Clone, Debug, PartialEq, Eq)]
pub struct StoredCommit {
    pub id: Oid,
    /// Commit time, in seconds since the epoch.
    pub time: i64,
    pub parents: Vec<Oid>,
    pub tree: Vec<TreeEntry>,
}

/// The commits of a repository and the commit that HEAD points at.
///
/// A lookup by id finds the first commit with that id. A parent id without a
/// commit stands for a commit that cannot be read.
#[derive(Clone, Debug, PartialEq, Eq)]
pub struct CommitStore {
    pub commits: Vec<StoredCommit>,
    pub head: Option<Oid>,
}

/// The index of the first commit at or after `from` with the given id; the
/// number of commits if there is none.
pub open spec fn index_from(commits: Seq<StoredCommit>, id: Oid, from: int) -> int
    decreases commits.len() - from,
{
    if from < 0 || from >= commits.len() {
        commits.len() as int
    } else if commits[from].id == id {
        from
    } else {
        index_from(commits, id, from + 1)
    }
}

/// The blob of the first entry at or after `from` with the given path.
pub open spec fn blob_from(tree: Seq<TreeEntry>, path: Seq<char>, from: int) -> Option<Oid>
    decreases tree.len() - from,
{
    if from < 0 || from >= tree.len() {
        None
    } else if tree[from].path@ == path {
        Some(tree[from].blob)
    } else {
        blob_from(tree, path, from + 1)
    }
}

/// `index_from` returns the first index from `from` on with the id.
pub proof fn lemma_index_from(commits: Seq<StoredCommit>, id: Oid, from: int)
    requires
        0 <= from <= commits.len(),
    ensures
        from <= index_from(commits, id, from) <= commits.len(),
        index_from(commits, id, from) < commits.len() ==> commits[index_from(commits, id, from)].id
            == id,
        forall|j: int| from <= j < index_from(commits, id, from) ==> (#[trigger] commits[j]).id != id,
    decreases commits.len() - from,
{
    if from < commits.len() && commits[from].id != id {
        lemma_index_from(commits, id, from + 1);
    }
}

impl CommitStore {
    /// The index of the first commit with the given id; the number of
    /// commits if there is none.
    pub open spec fn index_of(&self, id: Oid) -> int {
        index_from(self.commits@, id, 0)
    }

    /// Whether the store holds a commit with the given id.
    pub open spec fn knows(&self, id: Oid) -> bool {
        self.index_of(id) < self.commits@.len()
    }

    /// The commit with the given id.
    pub open spec fn commit_of(&self, id: Oid) -> StoredCommit {
        self.commits@[self.index_of(id)]
    }

    /// The ids of the commits in the store.
    pub open spec fn ids(&self) -> Set<Oid> {
        Set::new(|id: Oid| self.knows(id))
    }

    /// The blob at `path` in the tree of a commit.
    pub open spec fn blob_at(&self, id: Oid, path: Seq<char>) -> Option<Oid> {
        blob_from(self.commit_of(id).tree@, path, 0)
    }

    /// What the store says of a parent: nothing if it holds no such commit.
    pub open spec fn parent_entry(&self, parent: Oid, path: Seq<char>) -> Option<ParentEntry> {
        if self.knows(parent) {
            Some(
                ParentEntry {
                    oid: parent,
                    time: self.commit_of(parent).time,
                    blob: self.blob_at(parent, path),
                },
            )
        } else {
            None
        }
    }

    /// What the store says of the parents of a commit, in their order.
    pub open spec fn parent_entries(&self, id: Oid, path: Seq<char>) -> Seq<Option<ParentEntry>> {
        Seq::new(
            self.commit_of(id).parents@.len(),
            |k: int| self.parent_entry(self.commit_of(id).parents@[k], path),
        )
    }

    /// The commit at which a trace starts: the given one, or HEAD if none is
    /// given; nothing if that commit is not in the store.
    pub open spec fn start_of(&self, commit_id: Option<Oid>) -> Option<Oid> {
        let wanted = match commit_id {
            Some(id) => Some(id),
            None => self.head,
        };
        match wanted {
            Some(id) => if self.knows(id) {
                Some(id)
            } else {
                None
            },
            None => None,
        }
    }

    /// The ids of the store are finitely many.
    pub proof fn lemma_ids_finite(&self)
        ensures
            self.ids().finite(),
    {
        let listed = self.commits@.map_values(|c: StoredCommit| c.id);
        assert(self.ids().subset_of(listed.to_set())) by {
            assert forall|id: Oid| self.ids().contains(id) implies listed.to_set().contains(id) by {
                lemma_index_from(self.commits@, id, 0);
                assert(listed[self.index_of(id)] == id);
                assert(listed.contains(id));
            }
        }
        vstd::seq_lib::seq_to_set_is_finite(listed);
        vstd::set_lib::lemma_len_subset(self.ids(), listed.to_set());
    }

    /// A store with the given commits and HEAD.
    pub fn new(commits: Vec<StoredCommit>, head: Option<Oid>) -> (store: CommitStore)
        ensures
            store == (CommitStore { commits, head }),
    {
        CommitStore { commits, head }
    }

    /// The index of the first commit with the given id.
    pub fn find(&self, id: &Oid) -> (found: Option<usize>)
        ensures
            match found {
                Some(index) => self.knows(*id) && index == self.index_of(*id),
                None => !self.knows(*id),
            },
    {
        let mut i: usize = 0;
        while i < self.commits.len()
            invariant
                i <= self.commits.len(),
                index_from(self.commits@, *id, i as int) == self.index_of(*id),
            decreases self.commits.len() - i,
        {
            if self.commits[i].id.same(id) {
                return Some(i);
            }
            i += 1;
        }
        None
    }

    /// The blob at `path` in the tree of the commit at `index`.
    fn blob_in(&self, index: usize, path: &String) -> (blob: Option<Oid>)
        requires
            index < self.commits@.len(),
        ensures
            blob == blob_from(self.commits@[index as int].tree@, path@, 0),
    {
        let tree = &self.commits[index].tree;
        let mut i: usize = 0;
        while i < tree.len()
            invariant
                i <= tree.len(),
                index < self.commits@.len(),
                *tree == self.commits@[index as int].tree,
                blob_from(tree@, path@, i as int) == blob_from(tree@, path@, 0),
            decreases tree.len() - i,
        {
            if tree[i].path == *path {
                return Some(tree[i].blob);
            }
            i += 1;
        }
        None
    }

    /// The blob at `path` in the tree of a commit; nothing if the store has
    /// no such commit or the tree has no such path.
    pub fn lookup(&self, id: &Oid, path: &str) -> (blob: Option<Oid>)
        ensures
            blob == if self.knows(*id) {
                self.blob_at(*id, path@)
            } else {
                None
            },
    {
        let wanted = path.to_owned();
        match self.find(id) {
            Some(index) => self.blob_in(index, &wanted),
            None => None,
        }
    }

    /// What a trace of `path` needs to know of a commit: the blob at the
    /// path and, for each parent, its commit time and its blob at the path.
    /// Nothing if the store has no such commit.
    pub fn inspect(&self, id: &Oid, path: &String) -> (inspection: Option<Inspection>)
        ensures
            match inspection {
                Some(found) => self.knows(*id) && found.blob == self.blob_at(*id, path@)
                    && found.parents@ == self.parent_entries(*id, path@),
                None => !self.knows(*id),
            },
    {
        let index = match self.find(id) {
            Some(index) => index,
            None => {
                return None;
            },
        };
        let commit = &self.commits[index];
        let blob = self.blob_in(index, path);
        let mut parents: Vec<Option<ParentEntry>> = Vec::new();
        let mut k: usize = 0;
        while k < commit.parents.len()
            invariant
                k <= commit.parents.len(),
                index < self.commits@.len(),
                *commit == self.commits@[index as int],
                *commit == self.commit_of(*id),
                parents@.len() == k,
                forall|j: int|
                    0 <= j < k ==> #[trigger] parents@[j] == self.parent_entry(
                        commit.parents@[j],
                        path@,
                    ),
            decreases commit.parents.len() - k,
        {
            let parent = commit.parents[k];
            let entry = match self.find(&parent) {
                Some(at) => Some(
                    ParentEntry {
                        oid: parent,
                        time: self.commits[at].time,
                        blob: self.blob_in(at, path),
                    },
                ),
                None => None,
            };
            parents.push(entry);
            k += 1;
        }
        assert(parents@ =~= self.parent_entries(*id, path@));
        Some(Inspection { blob, parents })
    }
}

} // verus!
