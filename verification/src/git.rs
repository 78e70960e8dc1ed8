//! Restoring a repository package: the bare repository is replaced as a
//! whole, then the checkout of the wanted revision is put in place, from
//! an archive of the checkout or from the bare repository.

use vstd::prelude::*;

verus! {

/// One step of restoring a repository package.
#[derive(Debug, Clone, Copy, PartialEq, Eq, Structural)]
pub enum GitStep {
    /// Remove the existing bare repository with all that is in it.
    RemoveDb,
    /// Unpack the archive of the bare repository into its directory.
    UnpackDb,
    /// Remove the existing checkout directory with all that is in it.
    RemoveCheckout,
    /// Unpack the archive of the checkout into the checkout directory.
    UnpackCheckout,
    /// Check the revision out of the bare repository into the checkout
    /// directory, nested repositories included.
    Checkout,
    /// Write the marker into the checkout directory.
    WriteMarker,
}

/// The steps in their order. An existing bare repository or checkout is
/// removed first; the checkout comes from its archive where one was
/// fetched, else from the bare repository; the marker is written last.
pub open spec fn git_steps(db_present: bool, checkout_present: bool, has_archive: bool) -> Seq<
    GitStep,
> {
    (if db_present {
        seq![GitStep::RemoveDb]
    } else {
        Seq::empty()
    }) + seq![GitStep::UnpackDb] + (if checkout_present {
        seq![GitStep::RemoveCheckout]
    } else {
        Seq::empty()
    }) + seq![
        if has_archive {
            GitStep::UnpackCheckout
        } else {
            GitStep::Checkout
        },
        GitStep::WriteMarker,
    ]
}

/// The steps by which a repository package is restored, in the order in
/// which they are to be performed; the first that fails ends the
/// package's synchronization as failed, with the marker not written.
///
/// `db_present` and `checkout_present` say whether the directory of the
/// bare repository and that of the checkout exist; `has_archive`, whether
/// an archive of the checkout was fetched.
pub fn sync_git(db_present: bool, checkout_present: bool, has_archive: bool) -> (steps: Vec<
    GitStep,
>)
    ensures
        steps@ == git_steps(db_present, checkout_present, has_archive),
{
    let mut steps: Vec<GitStep> = Vec::new();
    if db_present {
        steps.push(GitStep::RemoveDb);
    }
    steps.push(GitStep::UnpackDb);
    if checkout_present {
        steps.push(GitStep::RemoveCheckout);
    }
    if has_archive {
        steps.push(GitStep::UnpackCheckout);
    } else {
        steps.push(GitStep::Checkout);
    }
    steps.push(GitStep::WriteMarker);
    proof {
        assert(steps@ =~= git_steps(db_present, checkout_present, has_archive));
    }
    steps
}

/// Every step performed so far succeeded.
pub open spec fn all_ok(results: Seq<bool>) -> bool {
    forall|i: int| 0 <= i < results.len() ==> #[trigger] results[i]
}

/// The step that is due when the first steps ended as `results` tell:
/// the next one while all succeeded and one is left, none after a
/// failure or at the end.
pub open spec fn step_due(steps: Seq<GitStep>, results: Seq<bool>) -> Option<GitStep> {
    if results.len() < steps.len() && all_ok(results) {
        Some(steps[results.len() as int])
    } else {
        None
    }
}

/// The package is restored: every step was performed and succeeded.
pub open spec fn restored(steps: Seq<GitStep>, results: Seq<bool>) -> bool {
    results.len() == steps.len() && all_ok(results)
}

/// Whether every step performed so far succeeded.
pub fn all_succeeded(results: &Vec<bool>) -> (r: bool)
    ensures
        r == all_ok(results@),
{
    let mut i: usize = 0;
    while i < results.len()
        invariant
            i <= results.len(),
            forall|j: int| 0 <= j < i ==> #[trigger] results@[j],
        decreases results.len() - i,
    {
        if !results[i] {
            return false;
        }
        i = i + 1;
    }
    true
}

/// The step to perform next, where `results` tells how the steps
/// performed so far ended, in their order. After a failure no step
/// follows: the marker is then never written.
pub fn next_git_step(steps: &Vec<GitStep>, results: &Vec<bool>) -> (next: Option<GitStep>)
    ensures
        next == step_due(steps@, results@),
{
    if results.len() < steps.len() && all_succeeded(results) {
        Some(steps[results.len()])
    } else {
        None
    }
}

/// Whether the package was restored, so that its task counts as good.
pub fn git_restored(steps: &Vec<GitStep>, results: &Vec<bool>) -> (r: bool)
    ensures
        r == restored(steps@, results@),
{
    results.len() == steps.len() && all_succeeded(results)
}

/// The marker is written only when every step before it succeeded, and
/// a package counts as restored only when the marker was written.
pub proof fn lemma_marker_after_success(
    db_present: bool,
    checkout_present: bool,
    has_archive: bool,
    results: Seq<bool>,
)
    ensures
        ({
            let s = git_steps(db_present, checkout_present, has_archive);
            &&& step_due(s, results) == Some(GitStep::WriteMarker) ==> all_ok(results)
                && results.len() == s.len() - 1
            &&& restored(s, results) ==> step_due(s, results.drop_last()) == Some(
                GitStep::WriteMarker,
            )
            &&& restored(s, results) ==> step_due(s, results) is None
        }),
{
    let s = git_steps(db_present, checkout_present, has_archive);
    lemma_git_order(db_present, checkout_present, has_archive);
    if restored(s, results) {
        let before = results.drop_last();
        assert forall|i: int| 0 <= i < before.len() implies #[trigger] before[i] by {
            assert(results[i]);
        }
    }
}

/// The steps come in a strict order: the bare repository is restored
/// before the checkout is made, and the marker is written last, after
/// the content of the checkout is in place.
pub proof fn lemma_git_order(db_present: bool, checkout_present: bool, has_archive: bool)
    ensures
        ({
            let s = git_steps(db_present, checkout_present, has_archive);
            let n = s.len() as int;
            &&& 3 <= n <= 5
            &&& s[n - 1] == GitStep::WriteMarker
            &&& s[n - 2] == if has_archive {
                GitStep::UnpackCheckout
            } else {
                GitStep::Checkout
            }
            &&& forall|i: int| 0 <= i < n - 1 ==> #[trigger] s[i] != GitStep::WriteMarker
            &&& exists|i: int| 0 <= i < n - 2 && #[trigger] s[i] == GitStep::UnpackDb
        }),
{
    let s = git_steps(db_present, checkout_present, has_archive);
    if db_present {
        assert(s[1] == GitStep::UnpackDb);
    } else {
        assert(s[0] == GitStep::UnpackDb);
    }
}

/// A checkout directory that exists when a package is restored is
/// removed before anything is put into it: its content is never
/// trusted. The same holds of the bare repository.
pub proof fn lemma_git_stale_removed(db_present: bool, checkout_present: bool, has_archive: bool)
    ensures
        ({
            let s = git_steps(db_present, checkout_present, has_archive);
            &&& s.contains(GitStep::RemoveDb) == db_present
            &&& s.contains(GitStep::RemoveCheckout) == checkout_present
            &&& db_present ==> s[0] == GitStep::RemoveDb && s[1] == GitStep::UnpackDb
            &&& checkout_present ==> s[s.len() - 3] == GitStep::RemoveCheckout
        }),
{
    let s = git_steps(db_present, checkout_present, has_archive);
    if db_present {
        assert(s[0] == GitStep::RemoveDb);
    }
    if checkout_present {
        assert(s[s.len() - 3] == GitStep::RemoveCheckout);
    }
}

} // verus!
