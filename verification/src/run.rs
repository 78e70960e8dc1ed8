//! The start of a run: what is missing, and the fan-out over it.

use vstd::prelude::*;
use crate::dispatch::Dispatcher;
use crate::model::{Krate, Registry};
use crate::probe::{all_found, derefs, is_missing_set, missing_set};
use crate::rerun::{disk_after, keys_tell_sources, lemma_second_run_finds_nothing};
use crate::summary::nothing;

verus! {

/// Why a run cannot start.
#[derive(Debug, Clone, Copy, PartialEq, Eq)]
pub enum SyncError {
    /// The cache directory of a registry could not be listed; `registry`
    /// is its position among the registries given.
    CacheUnreadable { registry: usize },
    /// More packages are missing than the summary can count.
    TooMany,
}

/// Starts a run over the required packages `krates`: finds the missing
/// set from what the caller saw on disk (see `missing_set`), and sets up
/// the fan-out over it, with nothing started and every counter at zero.
/// The caller then starts and completes the tasks as the dispatcher
/// says; task `n` is that of the `n`-th package of the missing set. Where
/// nothing is missing the run is done at once.
///
/// A run never fails for one package's sake; it cannot start only where a
/// cache directory could not be read.
pub fn crates<'k>(
    krates: &'k Vec<Krate>,
    marker_present: &Vec<bool>,
    registries: &Vec<Registry>,
    listings: &Vec<Option<Vec<String>>>,
) -> (res: Result<(Vec<&'k Krate>, Dispatcher), SyncError>)
    requires
        marker_present.len() == krates.len(),
        listings.len() == registries.len(),
    ensures
        match res {
            Ok((to_sync, dispatcher)) => {
                &&& forall|r: int| 0 <= r < listings.len() ==> (#[trigger] listings[r]) is Some
                &&& is_missing_set(
                    derefs(to_sync@),
                    all_found(
                        krates@,
                        marker_present@,
                        registries@,
                        listings@,
                        registries.len() as int,
                    ),
                )
                &&& dispatcher.wf()
                &&& dispatcher.total == to_sync.len()
                &&& dispatcher.started == 0
                &&& dispatcher.in_flight == 0
                &&& dispatcher.summary@ == nothing()
                &&& to_sync.len() == 0 ==> dispatcher.done()
            },
            Err(SyncError::CacheUnreadable { registry }) => {
                &&& registry < listings.len()
                &&& listings[registry as int] is None
                &&& forall|r: int| 0 <= r < registry ==> (#[trigger] listings[r]) is Some
            },
            Err(SyncError::TooMany) => {
                &&& forall|r: int| 0 <= r < listings.len() ==> (#[trigger] listings[r]) is Some
                &&& exists|out: Seq<Krate>|
                    out.len() > u32::MAX && #[trigger] is_missing_set(
                        out,
                        all_found(
                            krates@,
                            marker_present@,
                            registries@,
                            listings@,
                            registries.len() as int,
                        ),
                    )
            },
        },
{
    match missing_set(krates, marker_present, registries, listings) {
        Err(e) => Err(SyncError::CacheUnreadable { registry: e.registry }),
        Ok(to_sync) => {
            match Dispatcher::new(to_sync.len()) {
                Some(dispatcher) => Ok((to_sync, dispatcher)),
                None => {
                    proof {
                        let out = derefs(to_sync@);
                        assert(out.len() > u32::MAX && is_missing_set(
                            out,
                            all_found(
                                krates@,
                                marker_present@,
                                registries@,
                                listings@,
                                registries.len() as int,
                            ),
                        ));
                    }
                    Err(SyncError::TooMany)
                },
            }
        },
    }
}

/// A second run on the disk that a first run left, in which every unit of
/// its missing set was written and nothing else changed, is done at
/// once: its missing set is empty, no task can start, so nothing is
/// fetched and nothing is asked to be written, and every counter of its
/// summary is zero. This holds where a key tells the source.
pub proof fn lemma_second_run_is_idle(
    krates: Seq<Krate>,
    registries: Seq<Registry>,
    marker_before: Seq<bool>,
    listings_before: Seq<Option<Vec<String>>>,
    out: Seq<Krate>,
    marker_after: Seq<bool>,
    listings_after: Seq<Option<Vec<String>>>,
    out_after: Seq<Krate>,
    second: Dispatcher,
)
    requires
        marker_before.len() == krates.len(),
        listings_before.len() == registries.len(),
        keys_tell_sources(krates),
        is_missing_set(
            out,
            all_found(krates, marker_before, registries, listings_before, registries.len() as int),
        ),
        disk_after(
            krates,
            registries,
            marker_before,
            listings_before,
            out,
            marker_after,
            listings_after,
        ),
        is_missing_set(
            out_after,
            all_found(krates, marker_after, registries, listings_after, registries.len() as int),
        ),
        second.wf(),
        second.total == out_after.len(),
        second.started == 0,
        second.in_flight == 0,
        second.summary@ == nothing(),
    ensures
        out_after.len() == 0,
        second.done(),
        !(second.started < second.total),
        second.summary.total_bytes == 0,
        second.summary.good == 0,
        second.summary.bad == 0,
{
    lemma_second_run_finds_nothing(
        krates,
        registries,
        marker_before,
        listings_before,
        out,
        marker_after,
        listings_after,
        out_after,
    );
}

} // verus!
