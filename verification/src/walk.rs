//! The traversal and pruning engine.
//!
//! The engine owns the run's mutable state: the explicit LIFO frontier of
//! unvisited digests, the statistics accumulator, the current root and the
//! deletion count.  It performs no I/O itself: the driver asks it for the
//! next [`Action`], performs the store lookup or delete call, and hands the
//! outcome back.  Every decision between those hand-offs is made — and
//! verified — here.
//!
//! A subtree reachable through several parents is visited once per
//! incoming edge by default: the statistics then describe the stored
//! records as the traversal meets them.  An engine built with `dedup` set
//! instead keeps a visited set and skips a digest it has already fetched,
//! so every node is visited at most once.
//!
//! Deletions are a strictly ordered dependent chain: each delete request
//! carries the root produced by the previous successful deletion, never the
//! original, and the engine serializes them in leaf-visit order.  Deletions
//! do not alter the in-flight traversal: the frontier was computed from the
//! pre-deletion snapshot, so statistics describe the original snapshot and
//! deletions affect only the final root handed to the caller.

use vstd::prelude::*;
use crate::decode::{NodeModel, decode_node, spec_decode};
use crate::digest::Digest;
use crate::error::{ErrorModel, TrieError};
use crate::stats::{Stats, empty_stats, stats_record};
use crate::tags::KeyTag;

verus! {

/// What the driver must do next.
pub enum Action {
    /// Look the digest up in the store and hand the bytes back.
    Fetch(Digest),
    /// Ask the mutation service to delete the key under the current root.
    Delete { current_root: Digest, key_bytes: Vec<u8> },
    /// The frontier is empty: the traversal completed.
    Done,
}

/// The mutation service's verdict on one delete request.
pub enum DeleteOutcome {
    /// The key was deleted; the trie's new root is carried.
    Deleted(Digest),
    /// The key was not found under the given root.
    NotFound,
    /// The delete could not be applied.
    Conflict,
}

/// One successful deletion: the root it was expressed against, the deleted
/// key, and the root it produced.
pub ghost struct ChainLink {
    pub before: Seq<u8>,
    pub key: Seq<u8>,
    pub after: Seq<u8>,
}

/// Where the engine stands between two driver hand-offs.
pub ghost enum WalkStatus {
    /// Ready to pop the next digest or to finish.
    Ready,
    /// Waiting for the store bytes of a popped digest.
    Fetching { digest: Seq<u8> },
    /// Waiting for the mutation service's verdict on an obsolete key.
    Deleting { key: Seq<u8> },
    /// The traversal completed: the frontier emptied.
    Finished,
    /// A fatal error aborted the run.
    Failed { err: ErrorModel },
}

/// Mathematical image of the engine's state.
pub ghost struct WalkModel {
    pub frontier: Seq<Seq<u8>>,
    pub stats: Seq<Seq<u64>>,
    pub root: Seq<u8>,
    pub deleted: int,
    pub status: WalkStatus,
}

/// The deletions chain: each link is expressed against its predecessor's
/// result, and the current root is the last result (or the starting root).
pub open spec fn chain_linked(root0: Seq<u8>, chain: Seq<ChainLink>, root: Seq<u8>) -> bool {
    &&& forall|i: int|
        0 <= i < chain.len() ==> (#[trigger] chain[i]).before == if i == 0 {
            root0
        } else {
            chain[i - 1].after
        }
    &&& root == if chain.len() == 0 {
        root0
    } else {
        chain.last().after
    }
}

/// The digests a branch node contributes to the frontier, in its own index
/// order.
pub open spec fn child_digests(cs: Seq<(u8, Seq<u8>)>) -> Seq<Seq<u8>> {
    cs.map_values(|c: (u8, Seq<u8>)| c.1)
}

/// Pops the topmost digest that was not visited yet: digests already seen
/// are discarded from the top of the frontier until an unseen one (or
/// nothing) remains.
pub open spec fn pop_unseen(frontier: Seq<Seq<u8>>, seen: Set<Seq<u8>>) -> (Seq<Seq<u8>>, Option<
    Seq<u8>,
>)
    decreases frontier.len(),
{
    if frontier.len() == 0 {
        (frontier, None)
    } else if seen.contains(frontier.last()) {
        pop_unseen(frontier.drop_last(), seen)
    } else {
        (frontier.drop_last(), Some(frontier.last()))
    }
}

/// Engine phase, carrying the context of the pending hand-off.
enum Phase {
    Ready,
    Fetching { digest: Digest },
    Deleting { key_bytes: Vec<u8> },
    Finished,
    Failed { err: TrieError },
}

/// The traversal and pruning engine.
pub struct TrieWalk {
    frontier: Vec<Digest>,
    stats: Stats,
    root: Digest,
    deleted: u64,
    prune: bool,
    dedup: bool,
    seen: Vec<Digest>,
    phase: Phase,
    chain: Ghost<Seq<ChainLink>>,
    root0: Ghost<Seq<u8>>,
}

impl View for TrieWalk {
    type V = WalkModel;

    closed spec fn view(&self) -> WalkModel {
        WalkModel {
            frontier: self.frontier@.map_values(|d: Digest| d@),
            stats: self.stats@,
            root: self.root@,
            deleted: self.deleted as int,
            status: match self.phase {
                Phase::Ready => WalkStatus::Ready,
                Phase::Fetching { digest } => WalkStatus::Fetching { digest: digest@ },
                Phase::Deleting { key_bytes } => WalkStatus::Deleting { key: key_bytes@ },
                Phase::Finished => WalkStatus::Finished,
                Phase::Failed { err } => WalkStatus::Failed { err: err@ },
            },
        }
    }
}

impl TrieWalk {
    /// Whether obsolete leaves trigger delete requests in this run.
    pub closed spec fn prunes(&self) -> bool {
        self.prune
    }

    /// Whether a digest is visited at most once instead of once per edge.
    pub closed spec fn dedups(&self) -> bool {
        self.dedup
    }

    /// The digests already visited, where the engine deduplicates; empty
    /// otherwise.
    pub closed spec fn seen_set(&self) -> Set<Seq<u8>> {
        if self.dedup {
            self.seen@.map_values(|d: Digest| d@).to_set()
        } else {
            Set::empty()
        }
    }

    /// The root the traversal was seeded with.
    pub closed spec fn initial_root(&self) -> Seq<u8> {
        self.root0@
    }

    /// The successful deletions so far, in request order.
    pub closed spec fn delete_chain(&self) -> Seq<ChainLink> {
        self.chain@
    }

    /// Internal consistency: digests well-formed, accumulator sized, and
    /// the deletion chain linked from the starting root to the current one.
    pub closed spec fn wf(&self) -> bool {
        &&& forall|i: int|
            0 <= i < self.frontier@.len() ==> (#[trigger] self.frontier@[i]).is_valid()
        &&& self.root.is_valid()
        &&& self.stats.wf()
        &&& self.deleted as int == self.chain@.len()
        &&& chain_linked(self.root0@, self.chain@, self.root@)
        &&& (self.phase matches Phase::Fetching { digest } ==> digest.is_valid())
    }

    /// Seeds a run: the frontier holds the starting root alone, nothing is
    /// recorded, nothing was deleted.  With `prune` set, obsolete leaves
    /// trigger delete requests; without it the run only audits.  With
    /// `dedup` set, a digest already visited is skipped instead of being
    /// visited once per incoming edge.
    pub fn new(root: Digest, prune: bool, dedup: bool) -> (w: TrieWalk)
        requires
            root.is_valid(),
        ensures
            w.wf(),
            w@.frontier == seq![root@],
            w@.stats == empty_stats(),
            w@.root == root@,
            w@.deleted == 0,
            w@.status is Ready,
            w.prunes() == prune,
            w.dedups() == dedup,
            w.seen_set() == Set::<Seq<u8>>::empty(),
            w.initial_root() == root@,
            w.delete_chain() == Seq::<ChainLink>::empty(),
    {
        let ghost root_view = root@;
        let mut frontier: Vec<Digest> = Vec::new();
        let root_copy = root.dup();
        frontier.push(root_copy);
        let w = TrieWalk {
            frontier,
            stats: Stats::new(),
            root,
            deleted: 0,
            prune,
            dedup,
            seen: Vec::new(),
            phase: Phase::Ready,
            chain: Ghost(Seq::empty()),
            root0: Ghost(root_view),
        };
        assert(w@.frontier =~= seq![root_view]);
        assert(w.seen_set() =~= Set::<Seq<u8>>::empty());
        w
    }

    /// Hands the driver its next task.  A digest is popped off the
    /// frontier for a fetch; with `dedup` set, digests already visited are
    /// discarded first and the popped one is remembered.  An exhausted
    /// frontier ends the run.  A pending deletion re-issues its delete
    /// request.
    pub fn next(&mut self) -> (a: Action)
        requires
            old(self).wf(),
            old(self)@.status is Ready || old(self)@.status is Deleting,
        ensures
            final(self).wf(),
            final(self).prunes() == old(self).prunes(),
            final(self).dedups() == old(self).dedups(),
            final(self).initial_root() == old(self).initial_root(),
            final(self).delete_chain() == old(self).delete_chain(),
            final(self)@.stats == old(self)@.stats,
            final(self)@.root == old(self)@.root,
            final(self)@.deleted == old(self)@.deleted,
            old(self)@.status is Ready ==> {
                let (rest, popped) = pop_unseen(old(self)@.frontier, old(self).seen_set());
                match popped {
                    None => {
                        &&& a is Done
                        &&& final(self)@.frontier == rest
                        &&& final(self)@.status is Finished
                        &&& final(self).seen_set() == old(self).seen_set()
                    },
                    Some(d) => {
                        &&& (a matches Action::Fetch(f) && f@ == d && f.is_valid())
                        &&& final(self)@.frontier == rest
                        &&& final(self)@.status == (WalkStatus::Fetching { digest: d })
                        &&& final(self).seen_set() == if old(self).dedups() {
                            old(self).seen_set().insert(d)
                        } else {
                            old(self).seen_set()
                        }
                    },
                }
            },
            old(self)@.status matches WalkStatus::Deleting { key } ==> {
                &&& (a matches Action::Delete { current_root, key_bytes } && current_root@
                    == old(self)@.root && current_root.is_valid() && key_bytes@ == key)
                &&& final(self)@ == old(self)@
                &&& final(self).seen_set() == old(self).seen_set()
            },
    {
        let is_ready = match &self.phase {
            Phase::Ready => true,
            _ => false,
        };
        if is_ready {
            let ghost target = pop_unseen(old(self)@.frontier, old(self).seen_set());
            loop
                invariant
                    old(self)@.status is Ready,
                    old(self).wf(),
                    target == pop_unseen(old(self)@.frontier, old(self).seen_set()),
                    self.phase is Ready,
                    forall|i: int|
                        0 <= i < self.frontier@.len() ==> (
                        #[trigger] self.frontier@[i]).is_valid(),
                    pop_unseen(self@.frontier, old(self).seen_set()) == target,
                    self.seen == old(self).seen,
                    self.stats == old(self).stats,
                    self.root == old(self).root,
                    self.deleted == old(self).deleted,
                    self.prune == old(self).prune,
                    self.dedup == old(self).dedup,
                    self.chain == old(self).chain,
                    self.root0 == old(self).root0,
                decreases self.frontier@.len(),
            {
                let ghost fpre = self@.frontier;
                match self.frontier.pop() {
                    None => {
                        self.phase = Phase::Finished;
                        assert(fpre =~= Seq::<Seq<u8>>::empty());
                        return Action::Done;
                    },
                    Some(d) => {
                        proof {
                            assert(fpre.last() == d@);
                            assert(self@.frontier =~= fpre.drop_last());
                        }
                        if self.dedup && contains_digest(&self.seen, &d) {
                            proof {
                                assert(old(self).seen_set().contains(d@));
                            }
                        } else {
                            proof {
                                assert(!old(self).seen_set().contains(d@));
                                assert(target == (self@.frontier, Some(d@)));
                            }
                            let out = d.dup();
                            let ghost seen_pre = self.seen@;
                            if self.dedup {
                                self.seen.push(d.dup());
                                proof {
                                    let pre_map = seen_pre.map_values(|x: Digest| x@);
                                    let new_map = self.seen@.map_values(|x: Digest| x@);
                                    assert(new_map =~= pre_map.push(d@));
                                    assert forall|a: Seq<u8>| #[trigger] new_map.contains(a)
                                        implies pre_map.contains(a) || a == d@ by {
                                        let i = choose|i: int|
                                            0 <= i < new_map.len() && new_map[i] == a;
                                        if i < pre_map.len() {
                                            assert(pre_map[i] == a);
                                        }
                                    };
                                    assert forall|a: Seq<u8>|
                                        pre_map.contains(a) || a == d@ implies #[trigger]
                                    new_map.contains(a) by {
                                        if pre_map.contains(a) {
                                            let i = choose|i: int|
                                                0 <= i < pre_map.len() && pre_map[i] == a;
                                            assert(new_map[i] == a);
                                        } else {
                                            assert(new_map[pre_map.len() as int] == a);
                                        }
                                    };
                                    assert(new_map.to_set() =~= pre_map.to_set().insert(d@));
                                }
                            }
                            self.phase = Phase::Fetching { digest: d };
                            return Action::Fetch(out);
                        }
                    },
                }
            }
        } else {
            let key_out = match &self.phase {
                Phase::Deleting { key_bytes } => crate::digest::copy_bytes(key_bytes),
                _ => vstd::pervasive::unreached(),
            };
            let root_out = self.root.dup();
            Action::Delete { current_root: root_out, key_bytes: key_out }
        }
    }

    /// Feeds the store's answer for the digest being fetched.  A missing
    /// record is fatal store corruption; bytes that do not decode are a
    /// fatal decode failure.  A leaf is recorded (and, when pruning, an
    /// obsolete key starts a delete); an extension or branch node extends
    /// the frontier in the node's own index order.
    pub fn supply_lookup(&mut self, bytes: Option<Vec<u8>>) -> (r: Result<(), TrieError>)
        requires
            old(self).wf(),
            old(self)@.status is Fetching,
        ensures
            final(self).wf(),
            final(self).prunes() == old(self).prunes(),
            final(self).dedups() == old(self).dedups(),
            final(self).seen_set() == old(self).seen_set(),
            final(self).initial_root() == old(self).initial_root(),
            final(self).delete_chain() == old(self).delete_chain(),
            final(self)@.root == old(self)@.root,
            final(self)@.deleted == old(self)@.deleted,
            old(self)@.status matches WalkStatus::Fetching { digest } ==> match bytes {
                None => {
                    &&& (r matches Err(e) && e@ == (ErrorModel::StoreIntegrity { digest }))
                    &&& final(self)@.status == (WalkStatus::Failed {
                        err: (ErrorModel::StoreIntegrity { digest }),
                    })
                    &&& final(self)@.frontier == old(self)@.frontier
                    &&& final(self)@.stats == old(self)@.stats
                },
                Some(bs) => match spec_decode(bs@) {
                    None => {
                        &&& (r matches Err(e) && e@ == (ErrorModel::Decode {
                            digest,
                            byte_len: bs@.len() as nat,
                        }))
                        &&& final(self)@.status == (WalkStatus::Failed {
                            err: (ErrorModel::Decode { digest, byte_len: bs@.len() as nat }),
                        })
                        &&& final(self)@.frontier == old(self)@.frontier
                        &&& final(self)@.stats == old(self)@.stats
                    },
                    Some(node) => r is Ok && match node {
                        NodeModel::Leaf { key_tag, key_bytes, value_tag } => {
                            &&& final(self)@.stats == stats_record(
                                old(self)@.stats,
                                key_tag,
                                value_tag,
                                bs@.len() as u64,
                            )
                            &&& final(self)@.frontier == old(self)@.frontier
                            &&& final(self)@.status == if old(self).prunes() && key_tag
                                is EraInfo {
                                (WalkStatus::Deleting { key: key_bytes })
                            } else {
                                WalkStatus::Ready
                            }
                        },
                        NodeModel::Extension { child, .. } => {
                            &&& final(self)@.frontier == old(self)@.frontier.push(child)
                            &&& final(self)@.stats == old(self)@.stats
                            &&& final(self)@.status is Ready
                        },
                        NodeModel::Branch { children } => {
                            &&& final(self)@.frontier == old(self)@.frontier + child_digests(
                                children,
                            )
                            &&& final(self)@.stats == old(self)@.stats
                            &&& final(self)@.status is Ready
                        },
                    },
                },
            },
    {
        let digest = match &self.phase {
            Phase::Fetching { digest } => digest.dup(),
            _ => vstd::pervasive::unreached(),
        };
        let bs = match bytes {
            None => {
                let digest2 = digest.dup();
                self.phase = Phase::Failed { err: TrieError::StoreIntegrity { digest } };
                return Err(TrieError::StoreIntegrity { digest: digest2 });
            },
            Some(bs) => bs,
        };
        let node = match decode_node(&bs) {
            None => {
                let digest2 = digest.dup();
                let byte_len = bs.len();
                self.phase = Phase::Failed {
                    err: TrieError::Decode { digest, byte_len },
                };
                return Err(TrieError::Decode { digest: digest2, byte_len });
            },
            Some(node) => node,
        };
        match node {
            crate::decode::TrieNode::Leaf { key_tag, key_bytes, value_tag } => {
                self.stats.record_leaf(key_tag, value_tag, bs.len() as u64);
                if self.prune && key_tag == KeyTag::EraInfo {
                    self.phase = Phase::Deleting { key_bytes };
                } else {
                    self.phase = Phase::Ready;
                }
                Ok(())
            },
            crate::decode::TrieNode::Extension { affix: _, child } => {
                let ghost cv = child@;
                self.frontier.push(child);
                self.phase = Phase::Ready;
                assert(self@.frontier =~= old(self)@.frontier.push(cv));
                Ok(())
            },
            crate::decode::TrieNode::Branch { children } => {
                let ghost cviews = crate::decode::children_views(children@);
                let mut i: usize = 0;
                while i < children.len()
                    invariant
                        0 <= i <= children@.len(),
                        cviews == crate::decode::children_views(children@),
                        forall|j: int|
                            0 <= j < children@.len() ==> (
                            #[trigger] children@[j]).digest.is_valid(),
                        self.frontier@.map_values(|d: Digest| d@) == old(self)@.frontier
                            + child_digests(cviews).take(i as int),
                        forall|k: int|
                            0 <= k < self.frontier@.len() ==> (
                            #[trigger] self.frontier@[k]).is_valid(),
                        self.stats == old(self).stats,
                        self.root == old(self).root,
                        self.deleted == old(self).deleted,
                        self.prune == old(self).prune,
                        self.dedup == old(self).dedup,
                        self.seen == old(self).seen,
                        self.chain == old(self).chain,
                        self.root0 == old(self).root0,
                    decreases children@.len() - i,
                {
                    let d = children[i].digest.dup();
                    let ghost dv = d@;
                    let ghost fpre = self.frontier@;
                    self.frontier.push(d);
                    proof {
                        assert(self.frontier@ == fpre.push(d));
                        assert(cviews[i as int] == children@[i as int]@);
                        assert(child_digests(cviews)[i as int] == cviews[i as int].1);
                        assert(dv == child_digests(cviews)[i as int]);
                        assert(self.frontier@.map_values(|d: Digest| d@) =~= fpre.map_values(
                            |d: Digest| d@,
                        ).push(dv));
                        assert(child_digests(cviews).take(i + 1) =~= child_digests(
                            cviews,
                        ).take(i as int).push(child_digests(cviews)[i as int]));
                    }
                    assert(self.frontier@.map_values(|d: Digest| d@) =~= old(self)@.frontier
                        + child_digests(cviews).take(i + 1));
                    i = i + 1;
                }
                assert(child_digests(cviews).take(children@.len() as int) =~= child_digests(
                    cviews,
                ));
                self.phase = Phase::Ready;
                Ok(())
            },
        }
    }

    /// Feeds the mutation service's verdict on the pending delete.  Success
    /// replaces the current root with the produced one and lengthens the
    /// deletion chain; any other verdict is a fatal mutation failure, with
    /// no rollback of already-applied deletions.
    pub fn supply_delete(&mut self, outcome: DeleteOutcome) -> (r: Result<(), TrieError>)
        requires
            old(self).wf(),
            old(self)@.status is Deleting,
            old(self)@.deleted < u64::MAX,
            outcome matches DeleteOutcome::Deleted(d) ==> d.is_valid(),
        ensures
            final(self).wf(),
            final(self).prunes() == old(self).prunes(),
            final(self).dedups() == old(self).dedups(),
            final(self).seen_set() == old(self).seen_set(),
            final(self).initial_root() == old(self).initial_root(),
            final(self)@.frontier == old(self)@.frontier,
            final(self)@.stats == old(self)@.stats,
            old(self)@.status matches WalkStatus::Deleting { key } ==> match outcome {
                DeleteOutcome::Deleted(new_root) => {
                    &&& r is Ok
                    &&& final(self)@.root == new_root@
                    &&& final(self)@.deleted == old(self)@.deleted + 1
                    &&& final(self)@.status is Ready
                    &&& final(self).delete_chain() == old(self).delete_chain().push(
                        (ChainLink { before: old(self)@.root, key, after: new_root@ }),
                    )
                },
                _ => {
                    &&& (r matches Err(e) && e@ == (ErrorModel::Mutation { key_bytes: key }))
                    &&& final(self)@.root == old(self)@.root
                    &&& final(self)@.deleted == old(self)@.deleted
                    &&& final(self)@.status == (WalkStatus::Failed {
                        err: (ErrorModel::Mutation { key_bytes: key }),
                    })
                    &&& final(self).delete_chain() == old(self).delete_chain()
                },
            },
    {
        let key_bytes = match &self.phase {
            Phase::Deleting { key_bytes } => crate::digest::copy_bytes(key_bytes),
            _ => vstd::pervasive::unreached(),
        };
        match outcome {
            DeleteOutcome::Deleted(new_root) => {
                proof {
                    self.chain@ = self.chain@.push(
                        ChainLink { before: self.root@, key: key_bytes@, after: new_root@ },
                    );
                }
                self.root = new_root;
                self.deleted = self.deleted + 1;
                self.phase = Phase::Ready;
                Ok(())
            },
            DeleteOutcome::NotFound => {
                let key2 = crate::digest::copy_bytes(&key_bytes);
                self.phase = Phase::Failed { err: TrieError::Mutation { key_bytes } };
                Err(TrieError::Mutation { key_bytes: key2 })
            },
            DeleteOutcome::Conflict => {
                let key2 = crate::digest::copy_bytes(&key_bytes);
                self.phase = Phase::Failed { err: TrieError::Mutation { key_bytes } };
                Err(TrieError::Mutation { key_bytes: key2 })
            },
        }
    }

    /// Surrenders the engine for its accumulated statistics.
    pub fn into_stats(self) -> (s: Stats)
        requires
            self.wf(),
        ensures
            s@ == self@.stats,
            s.wf(),
    {
        self.stats
    }

    /// The statistics accumulated so far.
    pub fn stats_ref(&self) -> (r: &Stats)
        requires
            self.wf(),
        ensures
            r@ == self@.stats,
            r.wf(),
    {
        &self.stats
    }

    /// The current root: the starting root until a deletion succeeds, then
    /// always the most recently produced root.
    pub fn current_root(&self) -> (r: &Digest)
        ensures
            r@ == self@.root,
    {
        &self.root
    }

    /// How many obsolete leaves were deleted so far.
    pub fn deleted_count(&self) -> (r: u64)
        ensures
            r as int == self@.deleted,
    {
        self.deleted
    }
}

/// Whether the digest list holds these digest bytes.
fn contains_digest(v: &Vec<Digest>, d: &Digest) -> (r: bool)
    ensures
        r == v@.map_values(|x: Digest| x@).to_set().contains(d@),
{
    let mut i: usize = 0;
    while i < v.len()
        invariant
            0 <= i <= v@.len(),
            forall|j: int| 0 <= j < i ==> (#[trigger] v@[j])@ != d@,
        decreases v@.len() - i,
    {
        if crate::digest::bytes_eq(v[i].as_bytes(), d.as_bytes()) {
            assert(v@.map_values(|x: Digest| x@)[i as int] == d@);
            assert(v@.map_values(|x: Digest| x@).contains(d@));
            return true;
        }
        i = i + 1;
    }
    proof {
        let mv = v@.map_values(|x: Digest| x@);
        assert(forall|j: int| 0 <= j < mv.len() ==> #[trigger] mv[j] != d@);
        assert(!mv.contains(d@));
    }
    false
}

/// Law: within one run the successful deletions form a strictly ordered,
/// dependent chain: the first request is expressed against the starting
/// root, every later one against the root its predecessor produced, and
/// the engine's current root is the last produced root.  The deletion
/// count equals the chain's length.
pub proof fn lemma_deletion_chain(w: &TrieWalk)
    requires
        w.wf(),
    ensures
        w@.deleted == w.delete_chain().len(),
        chain_linked(w.initial_root(), w.delete_chain(), w@.root),
        w.delete_chain().len() > 0 ==> w.delete_chain()[0].before == w.initial_root()
            && w@.root == w.delete_chain().last().after,
        forall|i: int|
            1 <= i < w.delete_chain().len() ==> (#[trigger] w.delete_chain()[i]).before
                == w.delete_chain()[i - 1].after,
{
}

} // verus!
