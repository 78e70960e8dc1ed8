//! Bringing a registry's index up to date: an existing index is updated
//! in place, and where that fails it is removed and fetched anew.
//!
//! The caller does the work on disk and on the network. It asks which
//! step is due, performs it, and reports whether it succeeded.

use vstd::prelude::*;

verus! {

/// Where the synchronization of one registry's index stands.
#[derive(Debug, Clone, Copy, PartialEq, Eq, Structural)]
pub enum IndexState {
    /// A local index exists; new history is to be fetched into it.
    Updating,
    /// The update succeeded, or a snapshot was unpacked; the freshness
    /// marker is to be written.
    Marking,
    /// The update failed; the local index is to be removed.
    Removing,
    /// No local index exists; a snapshot is to be fetched.
    Fetching,
    /// A snapshot was fetched; it is to be unpacked.
    Unpacking,
    /// The index is up to date.
    Synced,
    /// The registry's index could not be brought up to date.
    Failed,
}

/// The step that is due in a state.
#[derive(Debug, Clone, Copy, PartialEq, Eq, Structural)]
pub enum IndexAction {
    /// Fetch new history from the index's own location into the local
    /// index, updating the tracking branch and the remote head together.
    FetchIncremental,
    /// Write or refresh the freshness marker in the index directory.
    WriteFreshnessMarker,
    /// Remove the index directory with all that is in it.
    RemoveIndexDir,
    /// Fetch a snapshot of the index from the storage backend.
    FetchSnapshot,
    /// Unpack the snapshot into the index directory.
    UnpackSnapshot,
    /// Nothing: the state is final.
    Stop,
}

/// The state in which a registry starts: decided by the presence of a
/// local index alone.
pub open spec fn initial_state(local_index_exists: bool) -> IndexState {
    if local_index_exists {
        IndexState::Updating
    } else {
        IndexState::Fetching
    }
}

/// The step due in `s`.
pub open spec fn action_of(s: IndexState) -> IndexAction {
    match s {
        IndexState::Updating => IndexAction::FetchIncremental,
        IndexState::Marking => IndexAction::WriteFreshnessMarker,
        IndexState::Removing => IndexAction::RemoveIndexDir,
        IndexState::Fetching => IndexAction::FetchSnapshot,
        IndexState::Unpacking => IndexAction::UnpackSnapshot,
        IndexState::Synced => IndexAction::Stop,
        IndexState::Failed => IndexAction::Stop,
    }
}

/// The state after the step due in `s` ended, well (`ok`) or not. A
/// failed update leads to the removal of the index and a full fetch;
/// every other failure is final. On either way the freshness marker is
/// written last: an index is synced only with its marker in place.
pub open spec fn next_state(s: IndexState, ok: bool) -> IndexState {
    match s {
        IndexState::Updating => if ok {
            IndexState::Marking
        } else {
            IndexState::Removing
        },
        IndexState::Marking => if ok {
            IndexState::Synced
        } else {
            IndexState::Failed
        },
        IndexState::Removing => if ok {
            IndexState::Fetching
        } else {
            IndexState::Failed
        },
        IndexState::Fetching => if ok {
            IndexState::Unpacking
        } else {
            IndexState::Failed
        },
        IndexState::Unpacking => if ok {
            IndexState::Marking
        } else {
            IndexState::Failed
        },
        IndexState::Synced => IndexState::Synced,
        IndexState::Failed => IndexState::Failed,
    }
}

/// The state after the steps that ended as `results` tell, from `s` on.
pub open spec fn run(s: IndexState, results: Seq<bool>) -> IndexState
    decreases results.len(),
{
    if results.len() == 0 {
        s
    } else {
        run(next_state(s, results[0]), results.drop_first())
    }
}

/// The state is final.
pub open spec fn is_final(s: IndexState) -> bool {
    s == IndexState::Synced || s == IndexState::Failed
}

/// The greatest number of steps still to come from a state.
pub open spec fn steps_left(s: IndexState) -> nat {
    match s {
        IndexState::Updating => 5,
        IndexState::Removing => 4,
        IndexState::Fetching => 3,
        IndexState::Unpacking => 2,
        IndexState::Marking => 1,
        IndexState::Synced => 0,
        IndexState::Failed => 0,
    }
}

/// The refs that an update of an existing index fetches, in one call: the
/// tracking branch and the remote head.
pub fn index_refspecs() -> (refs: [&'static str; 2])
    ensures
        refs[0]@ == "refs/heads/master:refs/remotes/origin/master"@,
        refs[1]@ == "HEAD:refs/remotes/origin/HEAD"@,
{
    ["refs/heads/master:refs/remotes/origin/master", "HEAD:refs/remotes/origin/HEAD"]
}

/// The state in which the synchronization of a registry's index starts.
pub fn index_start(local_index_exists: bool) -> (s: IndexState)
    ensures
        s == initial_state(local_index_exists),
{
    if local_index_exists {
        IndexState::Updating
    } else {
        IndexState::Fetching
    }
}

/// The step that the caller is to perform in state `s`.
pub fn index_action(s: IndexState) -> (a: IndexAction)
    ensures
        a == action_of(s),
{
    match s {
        IndexState::Updating => IndexAction::FetchIncremental,
        IndexState::Marking => IndexAction::WriteFreshnessMarker,
        IndexState::Removing => IndexAction::RemoveIndexDir,
        IndexState::Fetching => IndexAction::FetchSnapshot,
        IndexState::Unpacking => IndexAction::UnpackSnapshot,
        IndexState::Synced | IndexState::Failed => IndexAction::Stop,
    }
}

/// One move of a registry's index synchronization: the state after the
/// step due in `state` ended, and the step due next.
pub fn registry_index(state: IndexState, ok: bool) -> (next: (IndexState, IndexAction))
    ensures
        next.0 == next_state(state, ok),
        next.1 == action_of(next.0),
{
    let to: IndexState = match state {
        IndexState::Updating => if ok {
            IndexState::Marking
        } else {
            IndexState::Removing
        },
        IndexState::Removing => if ok {
            IndexState::Fetching
        } else {
            IndexState::Failed
        },
        IndexState::Fetching => if ok {
            IndexState::Unpacking
        } else {
            IndexState::Failed
        },
        IndexState::Unpacking => if ok {
            IndexState::Marking
        } else {
            IndexState::Failed
        },
        IndexState::Marking => if ok {
            IndexState::Synced
        } else {
            IndexState::Failed
        },
        IndexState::Synced => IndexState::Synced,
        IndexState::Failed => IndexState::Failed,
    };
    (to, index_action(to))
}

/// The registries whose index could not be brought up to date, by their
/// positions and in order, given the state in which each ended. A
/// registry that failed is reported and holds up no other: the pass over
/// the registries as a whole never fails.
pub fn registry_indices(finals: &Vec<IndexState>) -> (failed: Vec<usize>)
    ensures
        failed@.len() <= finals@.len(),
        forall|i: int|
            0 <= i < finals@.len() ==> (failed@.contains(i as usize) <==> #[trigger] finals@[i]
                != IndexState::Synced),
        forall|a: int, b: int| 0 <= a < b < failed@.len() ==> failed@[a] < failed@[b],
        forall|a: int| 0 <= a < failed@.len() ==> (#[trigger] failed@[a]) < finals@.len(),
{
    let mut failed: Vec<usize> = Vec::new();
    let mut i: usize = 0;
    while i < finals.len()
        invariant
            i <= finals.len(),
            failed@.len() <= i,
            forall|j: int|
                0 <= j < i ==> (failed@.contains(j as usize) <==> #[trigger] finals@[j]
                    != IndexState::Synced),
            forall|a: int, b: int| 0 <= a < b < failed@.len() ==> failed@[a] < failed@[b],
            forall|a: int| 0 <= a < failed@.len() ==> (#[trigger] failed@[a]) < i,
        decreases finals.len() - i,
    {
        match finals[i] {
            IndexState::Synced => {},
            _ => {
                let ghost before = failed@;
                failed.push(i);
                proof {
                    assert(failed@[before.len() as int] == i);
                    assert forall|j: int| 0 <= j < i + 1 implies (failed@.contains(j as usize)
                        <==> #[trigger] finals@[j] != IndexState::Synced) by {
                        if j < i {
                            if before.contains(j as usize) {
                                let w = choose|w: int| 0 <= w < before.len() && before[w] == j as usize;
                                assert(failed@[w] == j as usize);
                            }
                            if failed@.contains(j as usize) {
                                let w = choose|w: int| 0 <= w < failed@.len() && failed@[w] == j as usize;
                                assert(before[w] == j as usize);
                            }
                        }
                    }
                }
            },
        }
        i = i + 1;
    }
    failed
}

/// Every step brings a state that is not final nearer to a final one, so
/// a registry's synchronization ends after at most five steps.
pub proof fn lemma_index_progress(s: IndexState, ok: bool)
    requires
        !is_final(s),
    ensures
        steps_left(next_state(s, ok)) < steps_left(s),
{
}

/// A final state stays as it is, and asks for no step.
pub proof fn lemma_index_final_stays(s: IndexState, ok: bool)
    requires
        is_final(s),
    ensures
        next_state(s, ok) == s,
        action_of(s) == IndexAction::Stop,
{
}

/// When the update of an existing index fails, the index directory is
/// removed next, then a snapshot is fetched and unpacked, and then the
/// freshness marker is written; where these four succeed the index is
/// synced, and where one fails the registry has failed.
pub proof fn lemma_index_fallback(removed: bool, fetched: bool, unpacked: bool, marked: bool)
    ensures
        initial_state(true) == IndexState::Updating,
        action_of(next_state(IndexState::Updating, false)) == IndexAction::RemoveIndexDir,
        action_of(run(IndexState::Updating, seq![false, true])) == IndexAction::FetchSnapshot,
        action_of(run(IndexState::Updating, seq![false, true, true]))
            == IndexAction::UnpackSnapshot,
        action_of(run(IndexState::Updating, seq![false, true, true, true]))
            == IndexAction::WriteFreshnessMarker,
        run(IndexState::Updating, seq![false, removed, fetched, unpacked, marked]) == if removed
            && fetched && unpacked && marked {
            IndexState::Synced
        } else {
            IndexState::Failed
        },
{
    reveal_with_fuel(run, 7);
    let r5 = seq![false, removed, fetched, unpacked, marked];
    let r4 = r5.drop_first();
    let r3 = r4.drop_first();
    let r2 = r3.drop_first();
    let r1 = r2.drop_first();
    assert(r1.drop_first().len() == 0);
    assert(r5[0] == false && r4[0] == removed && r3[0] == fetched && r2[0] == unpacked && r1[0]
        == marked);
    let a2 = seq![false, true];
    assert(a2.drop_first()[0] == true && a2.drop_first().drop_first().len() == 0);
    let a3 = seq![false, true, true];
    assert(a3.drop_first()[0] == true && a3.drop_first().drop_first()[0] == true
        && a3.drop_first().drop_first().drop_first().len() == 0);
    let a4 = seq![false, true, true, true];
    let b3 = a4.drop_first();
    let b2 = b3.drop_first();
    let b1 = b2.drop_first();
    assert(a4[0] == false && b3[0] == true && b2[0] == true && b1[0] == true
        && b1.drop_first().len() == 0);
}

/// Without a local index a snapshot is fetched and unpacked, and then the
/// freshness marker is written; where these three succeed the index is
/// synced, and where one fails the registry has failed.
pub proof fn lemma_index_full_fetch(fetched: bool, unpacked: bool, marked: bool)
    ensures
        initial_state(false) == IndexState::Fetching,
        action_of(IndexState::Fetching) == IndexAction::FetchSnapshot,
        action_of(run(IndexState::Fetching, seq![true])) == IndexAction::UnpackSnapshot,
        action_of(run(IndexState::Fetching, seq![true, true]))
            == IndexAction::WriteFreshnessMarker,
        run(IndexState::Fetching, seq![fetched, unpacked, marked]) == if fetched && unpacked
            && marked {
            IndexState::Synced
        } else {
            IndexState::Failed
        },
{
    reveal_with_fuel(run, 5);
    let r3 = seq![fetched, unpacked, marked];
    let r2 = r3.drop_first();
    let r1 = r2.drop_first();
    assert(r3[0] == fetched && r2[0] == unpacked && r1[0] == marked && r1.drop_first().len()
        == 0);
    let a1 = seq![true];
    assert(a1[0] == true && a1.drop_first().len() == 0);
    let a2 = seq![true, true];
    assert(a2[0] == true && a2.drop_first()[0] == true && a2.drop_first().drop_first().len()
        == 0);
}

/// An index is synced only through the writing of its freshness marker,
/// and only where that succeeded: a synced index has its marker.
pub proof fn lemma_synced_only_by_success(s: IndexState, ok: bool)
    requires
        !is_final(s),
        next_state(s, ok) == IndexState::Synced,
    ensures
        ok,
        s == IndexState::Marking,
        action_of(s) == IndexAction::WriteFreshnessMarker,
{
}

/// However the steps end, a run that starts in a state that is not final
/// and ends synced has written the freshness marker as its last step
/// before the end, and that step succeeded.
pub proof fn lemma_synced_run_marked(s: IndexState, results: Seq<bool>)
    requires
        !is_final(s),
        run(s, results) == IndexState::Synced,
    ensures
        exists|k: int|
            0 <= k < results.len() && results[k] && #[trigger] run(s, results.take(k))
                == IndexState::Marking,
    decreases results.len(),
{
    if results.len() == 0 {
    } else {
        let t = next_state(s, results[0]);
        let rest = results.drop_first();
        assert(results.take(0) =~= Seq::<bool>::empty());
        if t == IndexState::Synced {
            lemma_synced_only_by_success(s, results[0]);
            assert(run(s, results.take(0)) == s);
            assert(0 <= 0 < results.len() && results[0] && run(s, results.take(0))
                == IndexState::Marking);
        } else if t == IndexState::Failed {
            lemma_failed_stays(rest);
        } else {
            lemma_synced_run_marked(t, rest);
            let k = choose|k: int|
                0 <= k < rest.len() && rest[k] && #[trigger] run(t, rest.take(k))
                    == IndexState::Marking;
            let front = results.take(k + 1);
            assert(front[0] == results[0]);
            assert(front.drop_first() =~= rest.take(k));
            assert(run(s, front) == run(t, rest.take(k)));
            assert(0 <= k + 1 < results.len() && results[k + 1] && run(s, results.take(k + 1))
                == IndexState::Marking);
        }
    }
}

/// A registry that has failed stays failed.
proof fn lemma_failed_stays(results: Seq<bool>)
    ensures
        run(IndexState::Failed, results) == IndexState::Failed,
    decreases results.len(),
{
    if results.len() > 0 {
        lemma_failed_stays(results.drop_first());
    }
}

} // verus!
