//! Writing a registry package to disk: the checksum is compared before
//! anything is written, then the archive goes to the cache and is
//! expanded into the source directory, unless that was done before.

use vstd::prelude::*;
use vstd::string::*;
use crate::git::{all_ok, all_succeeded};
use crate::model::{Krate, local_id, source_dir_name};

verus! {

/// The code of a character, that of an upper-case ASCII letter replaced
/// by that of its lower-case form.
pub open spec fn fold_case(c: char) -> int {
    if 65 <= c as int <= 90 {
        c as int + 32
    } else {
        c as int
    }
}

/// Two strings are equal but for the case of their ASCII letters.
pub open spec fn same_ignoring_case(a: Seq<char>, b: Seq<char>) -> bool {
    a.len() == b.len() && forall|i: int| 0 <= i < a.len() ==> fold_case(#[trigger] a[i]) == fold_case(b[i])
}

/// What is to be done about the expanded source of a package.
#[derive(Debug, Clone, Copy, PartialEq, Eq, Structural)]
pub enum Expansion {
    /// The marker exists: the source is valid, nothing is done.
    Skip,
    /// The archive is unpacked into the source root and the marker is
    /// written; before that, a directory left from an earlier attempt is
    /// removed with all that is in it.
    Unpack { remove_stale: bool },
}

/// Only the marker says that a source is valid: without it, whatever is
/// in the directory is removed and the archive unpacked again.
pub open spec fn expansion_of(marker_present: bool, dir_present: bool) -> Expansion {
    if marker_present {
        Expansion::Skip
    } else {
        Expansion::Unpack { remove_stale: dir_present }
    }
}

/// One step of expanding a package's source.
#[derive(Debug, Clone, Copy, PartialEq, Eq, Structural)]
pub enum PackageStep {
    /// Remove the directory left from an earlier attempt, with all that
    /// is in it.
    RemoveStale,
    /// Unpack the archive into the source root.
    Unpack,
    /// Write the marker into the package's source directory. A failure
    /// of this step is not a failure of the package.
    WriteMarker,
}

/// The steps of the expansion in their order: none where the marker
/// exists; else the removal of what is there, the unpacking, and the
/// marker last.
pub open spec fn package_steps_of(marker_present: bool, dir_present: bool) -> Seq<PackageStep> {
    if marker_present {
        Seq::empty()
    } else {
        (if dir_present {
            seq![PackageStep::RemoveStale]
        } else {
            Seq::empty()
        }) + seq![PackageStep::Unpack, PackageStep::WriteMarker]
    }
}

/// The step that is due when the first steps ended as `results` tell:
/// the next one while all succeeded and one is left, none after a
/// failure or at the end.
pub open spec fn package_step_due(steps: Seq<PackageStep>, results: Seq<bool>) -> Option<
    PackageStep,
> {
    if results.len() < steps.len() && all_ok(results) {
        Some(steps[results.len() as int])
    } else {
        None
    }
}

/// What is to be written for a package whose archive is authentic.
#[derive(Debug)]
pub struct PackagePlan {
    /// File name of the archive in the registry's cache directory.
    pub cache_file: String,
    /// Name of the package's directory in the registry's source directory.
    pub source_dir: String,
    /// What is to be done about the expanded source.
    pub expansion: Expansion,
    /// The steps of the expansion, in their order.
    pub steps: Vec<PackageStep>,
}

/// The digest of the fetched bytes is not the expected one.
#[derive(Debug, Clone, Copy, PartialEq, Eq, Structural)]
pub struct ChecksumMismatch;

fn lower(c: char) -> (l: u32)
    ensures
        l == fold_case(c),
{
    let n: u32 = c as u32;
    if 65 <= n && n <= 90 {
        n + 32
    } else {
        n
    }
}

/// Compares a computed digest with the expected one, both in hexadecimal,
/// without regard to the case of the letters.
pub fn validate_checksum(digest: &str, expected: &str) -> (r: bool)
    ensures
        r == same_ignoring_case(digest@, expected@),
{
    let n: usize = digest.unicode_len();
    if n != expected.unicode_len() {
        return false;
    }
    let mut i: usize = 0;
    while i < n
        invariant
            i <= n,
            n == digest@.len(),
            n == expected@.len(),
            forall|j: int| 0 <= j < i ==> fold_case(#[trigger] digest@[j]) == fold_case(expected@[j]),
        decreases n - i,
    {
        if lower(digest.get_char(i)) != lower(expected.get_char(i)) {
            return false;
        }
        i = i + 1;
    }
    true
}

/// The expansion that is due for a source directory in the state given.
pub fn expansion(marker_present: bool, dir_present: bool) -> (e: Expansion)
    ensures
        e == expansion_of(marker_present, dir_present),
{
    if marker_present {
        Expansion::Skip
    } else {
        Expansion::Unpack { remove_stale: dir_present }
    }
}

/// The steps by which a package's source is expanded, in the order in
/// which they are to be performed.
pub fn package_steps(marker_present: bool, dir_present: bool) -> (steps: Vec<PackageStep>)
    ensures
        steps@ == package_steps_of(marker_present, dir_present),
{
    let mut steps: Vec<PackageStep> = Vec::new();
    if !marker_present {
        if dir_present {
            steps.push(PackageStep::RemoveStale);
        }
        steps.push(PackageStep::Unpack);
        steps.push(PackageStep::WriteMarker);
    }
    proof {
        assert(steps@ =~= package_steps_of(marker_present, dir_present));
    }
    steps
}

/// The step of the expansion to perform next, where `results` tells how
/// the steps performed so far ended, in their order. After a failure no
/// step follows: the marker is written only into a source that was
/// unpacked in full.
pub fn next_package_step(steps: &Vec<PackageStep>, results: &Vec<bool>) -> (next: Option<
    PackageStep,
>)
    ensures
        next == package_step_due(steps@, results@),
        next == (if results.len() < steps.len() && all_ok(results@) {
            Some(steps@[results.len() as int])
        } else {
            None
        }),
{
    if results.len() < steps.len() && all_succeeded(results) {
        Some(steps[results.len()])
    } else {
        None
    }
}

/// Decides what to write for a fetched registry package. `digest` is the
/// digest of the fetched bytes and `chksum` the expected one;
/// `marker_present` and `dir_present` say whether the package's source
/// directory holds its marker, and whether it exists.
///
/// A digest that differs from the expected one fails the package and
/// nothing is to be written. Otherwise the archive goes to the cache and
/// the source is expanded by the steps of `package_steps_of`, which
/// spell out what `expansion_of` says; a failure of either does not fail
/// the package.
pub fn sync_package(
    krate: &Krate,
    digest: &str,
    chksum: &str,
    marker_present: bool,
    dir_present: bool,
) -> (res: Result<PackagePlan, ChecksumMismatch>)
    ensures
        res is Ok == same_ignoring_case(digest@, chksum@),
        res is Ok ==> {
            &&& res->Ok_0.cache_file@ == local_id(*krate)
            &&& res->Ok_0.source_dir@ == source_dir_name(krate.name@, krate.version@)
            &&& res->Ok_0.expansion == expansion_of(marker_present, dir_present)
            &&& res->Ok_0.steps@ == package_steps_of(marker_present, dir_present)
        },
{
    if !validate_checksum(digest, chksum) {
        return Err(ChecksumMismatch);
    }
    Ok(
        PackagePlan {
            cache_file: krate.local_id(),
            source_dir: krate.source_dir(),
            expansion: expansion(marker_present, dir_present),
            steps: package_steps(marker_present, dir_present),
        },
    )
}

/// A digest that differs from the expected one in one place, by more
/// than the case of a letter, is refused.
pub proof fn lemma_one_difference_refused(digest: Seq<char>, chksum: Seq<char>, i: int)
    requires
        0 <= i < digest.len(),
        digest.len() == chksum.len(),
        fold_case(digest[i]) != fold_case(chksum[i]),
    ensures
        !same_ignoring_case(digest, chksum),
{
}

/// A digest is accepted against itself, and against itself in another
/// case.
pub proof fn lemma_same_ignoring_case_reflexive(a: Seq<char>)
    ensures
        same_ignoring_case(a, a),
{
}

/// Without the marker the content of a source directory is never
/// trusted: what is there is removed and the archive is unpacked again.
pub proof fn lemma_source_marker_gates(dir_present: bool)
    ensures
        expansion_of(false, dir_present) == (Expansion::Unpack { remove_stale: dir_present }),
        expansion_of(true, dir_present) == Expansion::Skip,
{
}

/// The steps are those that the expansion names: none to skip, and the
/// removal first where a stale directory is there.
pub proof fn lemma_steps_spell_expansion(marker_present: bool, dir_present: bool)
    ensures
        ({
            let s = package_steps_of(marker_present, dir_present);
            match expansion_of(marker_present, dir_present) {
                Expansion::Skip => s.len() == 0,
                Expansion::Unpack { remove_stale } => {
                    &&& s.len() == if remove_stale { 3int } else { 2int }
                    &&& remove_stale ==> s[0] == PackageStep::RemoveStale
                    &&& s[s.len() - 2] == PackageStep::Unpack
                    &&& s[s.len() - 1] == PackageStep::WriteMarker
                },
            }
        }),
{
}

/// The marker is written only after the stale directory was removed,
/// where there was one, and the archive was unpacked, both with success:
/// when the marker's step is due, every step before it was performed and
/// succeeded, and the last of them was the unpacking.
pub proof fn lemma_marker_after_unpack(
    marker_present: bool,
    dir_present: bool,
    results: Seq<bool>,
)
    requires
        package_step_due(package_steps_of(marker_present, dir_present), results) == Some(
            PackageStep::WriteMarker,
        ),
    ensures
        !marker_present,
        all_ok(results),
        results.len() == package_steps_of(marker_present, dir_present).len() - 1,
        results.len() >= 1,
        package_steps_of(marker_present, dir_present)[results.len() - 1] == PackageStep::Unpack,
        dir_present ==> package_steps_of(marker_present, dir_present)[0]
            == PackageStep::RemoveStale && results.len() == 2,
{
}

/// After a step that failed nothing more is done: where the removal or
/// the unpacking fails, the marker is not written.
pub proof fn lemma_no_step_after_failure(steps: Seq<PackageStep>, results: Seq<bool>, i: int)
    requires
        0 <= i < results.len(),
        !results[i],
    ensures
        package_step_due(steps, results) is None,
{
}

} // verus!
