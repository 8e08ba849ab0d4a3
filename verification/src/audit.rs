//! Whole-run audits against an in-memory store, and the laws of a run.
//!
//! One audit step pops a digest, looks it up, decodes the record and
//! dispatches on the node: exactly the engine's behaviour when no pruning
//! is asked for.  The step function is the run's mathematical model; the
//! driver below executes it with the engine and is proved to compute
//! precisely the model's outcome.  The store's well-formedness (acyclicity)
//! is an external guarantee the verifier cannot see, so the driver takes an
//! explicit step budget instead of trusting termination.

use vstd::prelude::*;
use crate::decode::{NodeModel, spec_decode};
use crate::digest::Digest;
use crate::error::{ErrorModel, TrieError};
use crate::stats::{Stats, empty_stats, stats_record, total_visits};
use crate::store::Store;
use crate::walk::{Action, TrieWalk, child_digests, pop_unseen};

verus! {

/// Whether a modelled run still works, completed, or aborted.
pub ghost enum AuditStatus {
    Running,
    Finished,
    Failed { err: ErrorModel },
}

/// Mathematical state of an audit run.
pub ghost struct AuditModel {
    pub frontier: Seq<Seq<u8>>,
    pub stats: Seq<Seq<u64>>,
    pub seen: Set<Seq<u8>>,
    pub dedup: bool,
    pub done: AuditStatus,
}

/// A run about to start: the frontier holds the root alone.
pub open spec fn audit_init(root: Seq<u8>, dedup: bool) -> AuditModel {
    AuditModel {
        frontier: seq![root],
        stats: empty_stats(),
        seen: Set::empty(),
        dedup,
        done: AuditStatus::Running,
    }
}

/// One audit step: pop the next unseen digest, look it up, decode,
/// dispatch; when deduplicating, remember the popped digest.  A finished
/// or failed run is a fixed point.
pub open spec fn audit_step(store: Map<Seq<u8>, Seq<u8>>, m: AuditModel) -> AuditModel {
    if !(m.done is Running) {
        m
    } else {
        let (rest, popped) = pop_unseen(m.frontier, m.seen);
        match popped {
            None => AuditModel { frontier: rest, done: AuditStatus::Finished, ..m },
            Some(d) => {
                let seen = if m.dedup {
                    m.seen.insert(d)
                } else {
                    m.seen
                };
                if !store.contains_key(d) {
                    AuditModel {
                        frontier: rest,
                        seen,
                        done: AuditStatus::Failed {
                            err: ErrorModel::StoreIntegrity { digest: d },
                        },
                        ..m
                    }
                } else {
                    let bs = store[d];
                    match spec_decode(bs) {
                        None => AuditModel {
                            frontier: rest,
                            seen,
                            done: AuditStatus::Failed {
                                err: ErrorModel::Decode { digest: d, byte_len: bs.len() },
                            },
                            ..m
                        },
                        Some(node) => match node {
                            NodeModel::Leaf { key_tag, value_tag, .. } => AuditModel {
                                frontier: rest,
                                stats: stats_record(
                                    m.stats,
                                    key_tag,
                                    value_tag,
                                    bs.len() as u64,
                                ),
                                seen,
                                ..m
                            },
                            NodeModel::Extension { child, .. } => AuditModel {
                                frontier: rest.push(child),
                                seen,
                                ..m
                            },
                            NodeModel::Branch { children } => AuditModel {
                                frontier: rest + child_digests(children),
                                seen,
                                ..m
                            },
                        },
                    }
                }
            },
        }
    }
}

/// The model after `n` audit steps.
pub open spec fn audit_iter(store: Map<Seq<u8>, Seq<u8>>, m: AuditModel, n: nat) -> AuditModel
    decreases n,
{
    if n == 0 {
        m
    } else {
        audit_iter(store, audit_step(store, m), (n - 1) as nat)
    }
}

/// Stepping after `n` iterations is iterating `n + 1` times.
pub proof fn lemma_audit_iter_unfold(store: Map<Seq<u8>, Seq<u8>>, m: AuditModel, n: nat)
    ensures
        audit_iter(store, m, n + 1) == audit_step(store, audit_iter(store, m, n)),
    decreases n,
{
    if n > 0 {
        lemma_audit_iter_unfold(store, audit_step(store, m), (n - 1) as nat);
    } else {
        assert(audit_iter(store, audit_step(store, m), 0) == audit_step(store, m));
        assert(audit_iter(store, m, 0) == m);
        assert(audit_iter(store, m, 1) == audit_iter(store, audit_step(store, m), 0));
    }
}

/// A finished or failed run stays exactly as it is under further steps.
pub proof fn lemma_audit_absorb(store: Map<Seq<u8>, Seq<u8>>, m: AuditModel, i: nat, j: nat)
    requires
        i <= j,
        !(audit_iter(store, m, i).done is Running),
    ensures
        audit_iter(store, m, j) == audit_iter(store, m, i),
    decreases j - i,
{
    if j > i {
        lemma_audit_absorb(store, m, i, (j - 1) as nat);
        lemma_audit_iter_unfold(store, m, (j - 1) as nat);
    }
}

/// Law: traversal of an immutable snapshot is deterministic, so two runs
/// over the same root that both complete produce identical aggregator
/// state (and identical frontiers and outcomes), whatever their budgets.
pub proof fn lemma_traversal_idempotent(
    store: Map<Seq<u8>, Seq<u8>>,
    root: Seq<u8>,
    dedup: bool,
    n: nat,
    m: nat,
)
    requires
        audit_iter(store, audit_init(root, dedup), n).done is Finished,
        audit_iter(store, audit_init(root, dedup), m).done is Finished,
    ensures
        audit_iter(store, audit_init(root, dedup), n) == audit_iter(
            store,
            audit_init(root, dedup),
            m,
        ),
{
    if n <= m {
        lemma_audit_absorb(store, audit_init(root, dedup), n, m);
    } else {
        lemma_audit_absorb(store, audit_init(root, dedup), m, n);
    }
}

/// An independent reference count of the leaves in the transitive closure
/// of `d`: a leaf counts once per incoming edge, so a subtree shared by
/// several parents is counted once per parent.  `None` when the fuel runs
/// out, a digest is unresolved, or a record does not decode.
pub open spec fn leaf_count(store: Map<Seq<u8>, Seq<u8>>, d: Seq<u8>, fuel: nat) -> Option<int>
    decreases fuel, 0int,
{
    if fuel == 0 {
        None
    } else if !store.contains_key(d) {
        None
    } else {
        match spec_decode(store[d]) {
            None => None,
            Some(node) => match node {
                NodeModel::Leaf { .. } => Some(1),
                NodeModel::Extension { child, .. } => leaf_count(
                    store,
                    child,
                    (fuel - 1) as nat,
                ),
                NodeModel::Branch { children } => leaf_count_list(
                    store,
                    child_digests(children),
                    (fuel - 1) as nat,
                ),
            },
        }
    }
}

/// The summed leaf counts of a list of subtree roots.
pub open spec fn leaf_count_list(store: Map<Seq<u8>, Seq<u8>>, ds: Seq<Seq<u8>>, fuel: nat) -> Option<
    int,
>
    decreases fuel, ds.len() + 1,
{
    if ds.len() == 0 {
        Some(0)
    } else {
        match leaf_count(store, ds.last(), fuel) {
            None => None,
            Some(a) => match leaf_count_list(store, ds.drop_last(), fuel) {
                None => None,
                Some(b) => Some(a + b),
            },
        }
    }
}

/// More fuel never changes a count that already resolved.
proof fn lemma_leaf_count_mono(store: Map<Seq<u8>, Seq<u8>>, d: Seq<u8>, f1: nat, f2: nat)
    requires
        f1 <= f2,
        leaf_count(store, d, f1) is Some,
    ensures
        leaf_count(store, d, f2) == leaf_count(store, d, f1),
    decreases f1, 0int,
{
    if f1 > 0 && store.contains_key(d) {
        match spec_decode(store[d]) {
            None => {},
            Some(node) => match node {
                NodeModel::Leaf { .. } => {},
                NodeModel::Extension { child, .. } => {
                    lemma_leaf_count_mono(store, child, (f1 - 1) as nat, (f2 - 1) as nat);
                },
                NodeModel::Branch { children } => {
                    lemma_leaf_count_list_mono(
                        store,
                        child_digests(children),
                        (f1 - 1) as nat,
                        (f2 - 1) as nat,
                    );
                },
            },
        }
    }
}

/// More fuel never changes a list count that already resolved.
proof fn lemma_leaf_count_list_mono(
    store: Map<Seq<u8>, Seq<u8>>,
    ds: Seq<Seq<u8>>,
    f1: nat,
    f2: nat,
)
    requires
        f1 <= f2,
        leaf_count_list(store, ds, f1) is Some,
    ensures
        leaf_count_list(store, ds, f2) == leaf_count_list(store, ds, f1),
    decreases f1, ds.len() + 1,
{
    if ds.len() > 0 {
        lemma_leaf_count_mono(store, ds.last(), f1, f2);
        lemma_leaf_count_list_mono(store, ds.drop_last(), f1, f2);
    }
}

/// A list count splits over concatenation.
proof fn lemma_leaf_count_list_concat(
    store: Map<Seq<u8>, Seq<u8>>,
    a: Seq<Seq<u8>>,
    b: Seq<Seq<u8>>,
    fuel: nat,
)
    ensures
        leaf_count_list(store, a + b, fuel) == match leaf_count_list(store, a, fuel) {
            None => None::<int>,
            Some(x) => match leaf_count_list(store, b, fuel) {
                None => None::<int>,
                Some(y) => Some(x + y),
            },
        },
    decreases b.len(),
{
    if b.len() == 0 {
        assert(a + b =~= a);
        assert(leaf_count_list(store, b, fuel) == Some(0int));
    } else {
        lemma_leaf_count_list_concat(store, a, b.drop_last(), fuel);
        assert((a + b).last() == b.last());
        assert((a + b).drop_last() =~= a + b.drop_last());
    }
}

/// A completing run's new leaf visits are the summed leaf counts of its
/// starting frontier, resolved within the run's step budget.
proof fn lemma_dfs_frontier(store: Map<Seq<u8>, Seq<u8>>, m: AuditModel, n: nat)
    requires
        m.done is Running,
        m.stats.len() == 165,
        !m.dedup,
        m.seen == Set::<Seq<u8>>::empty(),
        audit_iter(store, m, n).done is Finished,
    ensures
        leaf_count_list(store, m.frontier, n) == Some(
            total_visits(audit_iter(store, m, n).stats) - total_visits(m.stats),
        ),
    decreases n,
{
    let fin = audit_iter(store, m, n);
    let m1 = audit_step(store, m);
    assert(n > 0);
    assert(audit_iter(store, m, n) == audit_iter(store, m1, (n - 1) as nat));
    if m.frontier.len() > 0 {
        assert(!m.seen.contains(m.frontier.last()));
        assert(pop_unseen(m.frontier, m.seen) == (
            m.frontier.drop_last(),
            Some(m.frontier.last()),
        ));
    } else {
        assert(pop_unseen(m.frontier, m.seen) == (m.frontier, None::<Seq<u8>>));
    }
    if m.frontier.len() == 0 {
        assert(m1.done is Finished && m1.stats == m.stats);
        lemma_audit_absorb_from(store, m1, (n - 1) as nat);
        assert(fin.stats == m.stats);
    } else {
        let d = m.frontier.last();
        let rest = m.frontier.drop_last();
        if !store.contains_key(d) {
            lemma_audit_absorb_from(store, m1, (n - 1) as nat);
            assert(false);
        } else {
            let bs = store[d];
            match spec_decode(bs) {
                None => {
                    lemma_audit_absorb_from(store, m1, (n - 1) as nat);
                    assert(false);
                },
                Some(node) => match node {
                    NodeModel::Leaf { key_tag, value_tag, .. } => {
                        lemma_dfs_frontier(store, m1, (n - 1) as nat);
                        crate::stats::lemma_total_visits_record(
                            m.stats,
                            key_tag,
                            value_tag,
                            bs.len() as u64,
                        );
                        lemma_leaf_count_list_mono(store, rest, (n - 1) as nat, n);
                        assert(leaf_count(store, d, n) == Some(1int));
                    },
                    NodeModel::Extension { child, .. } => {
                        lemma_dfs_frontier(store, m1, (n - 1) as nat);
                        assert(m1.frontier.last() == child);
                        assert(m1.frontier.drop_last() =~= rest);
                        lemma_leaf_count_list_mono(store, rest, (n - 1) as nat, n);
                        assert(leaf_count(store, d, n) == leaf_count(
                            store,
                            child,
                            (n - 1) as nat,
                        ));
                    },
                    NodeModel::Branch { children } => {
                        lemma_dfs_frontier(store, m1, (n - 1) as nat);
                        let cds = child_digests(children);
                        lemma_leaf_count_list_concat(store, rest, cds, (n - 1) as nat);
                        lemma_leaf_count_list_mono(store, rest, (n - 1) as nat, n);
                        assert(leaf_count(store, d, n) == leaf_count_list(
                            store,
                            cds,
                            (n - 1) as nat,
                        ));
                    },
                },
            }
        }
    }
}

/// A run that is no longer working never changes again.
proof fn lemma_audit_absorb_from(store: Map<Seq<u8>, Seq<u8>>, m: AuditModel, n: nat)
    requires
        !(m.done is Running),
    ensures
        audit_iter(store, m, n) == m,
{
    assert(audit_iter(store, m, 0) == m);
    lemma_audit_absorb(store, m, 0, n);
}

/// Law: when a traversal completes, the key-tag counts, the value-tag
/// counts and the total leaf visits all sum to the same number, and that
/// number matches an independent reference count of the leaves in the
/// root's transitive closure, counted once per incoming edge.
pub proof fn lemma_leaf_visits_match_closure(
    store: Map<Seq<u8>, Seq<u8>>,
    root: Seq<u8>,
    n: nat,
)
    requires
        audit_iter(store, audit_init(root, false), n).done is Finished,
    ensures
        ({
            let stats = audit_iter(store, audit_init(root, false), n).stats;
            &&& leaf_count(store, root, n) == Some(total_visits(stats))
            &&& crate::stats::sum_key_counts(stats, 0) == total_visits(stats)
            &&& crate::stats::sum_value_counts(stats) == total_visits(stats)
        }),
{
    let init = audit_init(root, false);
    let stats = audit_iter(store, init, n).stats;
    lemma_dfs_frontier(store, init, n);
    crate::stats::lemma_total_visits_empty(0, 165);
    assert(init.frontier.last() == root);
    assert(init.frontier.drop_last() =~= Seq::<Seq<u8>>::empty());
    assert(leaf_count_list(store, Seq::<Seq<u8>>::empty(), n) == Some(0int));
    assert(leaf_count_list(store, init.frontier, n) == match leaf_count(store, root, n) {
        None => None::<int>,
        Some(a) => Some(a + 0),
    });
    crate::stats::lemma_counts_balance(stats);
}

/// How a budgeted audit run ended.
pub enum AuditOutcome {
    /// The frontier emptied: the completed run's statistics.
    Finished(Stats),
    /// A fatal error aborted the run.
    Failed(TrieError),
    /// The budget ran out before the frontier emptied.
    OutOfSteps,
}

/// Runs a statistics-only audit (no pruning) of the trie reachable from
/// `root` in the given store, spending at most `max_steps` node visits.
/// With `dedup` set, a digest reachable through several parents is visited
/// once instead of once per incoming edge.  The result is exactly the
/// modelled run's outcome after `max_steps` steps.
pub fn run_audit(store: &Store, root: &Digest, dedup: bool, max_steps: usize) -> (r: AuditOutcome)
    requires
        root.is_valid(),
    ensures
        ({
            let fin = audit_iter(store@, audit_init(root@, dedup), max_steps as nat);
            match r {
                AuditOutcome::Finished(s) => fin.done is Finished && s@ == fin.stats
                    && s.wf(),
                AuditOutcome::Failed(e) => fin.done matches AuditStatus::Failed { err }
                    && e@ == err,
                AuditOutcome::OutOfSteps => fin.done is Running,
            }
        }),
{
    let mut walk = TrieWalk::new(root.dup(), false, dedup);
    assert(walk@.frontier =~= audit_init(root@, dedup).frontier);
    let ghost init = audit_init(root@, dedup);
    let mut steps: usize = 0;
    while steps < max_steps
        invariant
            walk.wf(),
            !walk.prunes(),
            walk.dedups() == dedup,
            walk@.status is Ready,
            steps <= max_steps,
            init == audit_init(root@, dedup),
            audit_iter(store@, init, steps as nat).done is Running,
            audit_iter(store@, init, steps as nat).frontier == walk@.frontier,
            audit_iter(store@, init, steps as nat).stats == walk@.stats,
            audit_iter(store@, init, steps as nat).seen == walk.seen_set(),
            audit_iter(store@, init, steps as nat).dedup == dedup,
        decreases max_steps - steps,
    {
        let ghost cur = audit_iter(store@, init, steps as nat);
        let a = walk.next();
        match a {
            Action::Done => {
                proof {
                    lemma_audit_iter_unfold(store@, init, steps as nat);
                    lemma_audit_absorb(store@, init, (steps + 1) as nat, max_steps as nat);
                }
                return AuditOutcome::Finished(walk.into_stats());
            },
            Action::Fetch(d) => {
                let bytes = store.lookup(d.as_bytes());
                match walk.supply_lookup(bytes) {
                    Ok(_) => {
                        proof {
                            lemma_audit_iter_unfold(store@, init, steps as nat);
                            assert(audit_iter(store@, init, (steps + 1) as nat)
                                == audit_step(store@, cur));
                        }
                    },
                    Err(e) => {
                        proof {
                            lemma_audit_iter_unfold(store@, init, steps as nat);
                            lemma_audit_absorb(
                                store@,
                                init,
                                (steps + 1) as nat,
                                max_steps as nat,
                            );
                        }
                        return AuditOutcome::Failed(e);
                    },
                }
            },
            Action::Delete { .. } => {
                // A run without pruning never asks for a delete.
                proof {
                    assert(false);
                }
                return vstd::pervasive::unreached();
            },
        }
        steps = steps + 1;
    }
    AuditOutcome::OutOfSteps
}

} // verus!
