use bytes::Bytes;
use cache_sync::dispatch::{task_outcome, Dispatcher, MAX_IN_FLIGHT};
use cache_sync::git::{git_restored, next_git_step, sync_git, GitStep};
use cache_sync::index::{
    index_action, index_refspecs, index_start, registry_index, registry_indices, IndexAction,
    IndexState,
};
use cache_sync::layout::{
    cache_file_path, git_checkout_path, git_db_path, join, source_dir_path, CACHE_DIR,
    GIT_CO_DIR, GIT_DB_DIR, GIT_MARKER_CONTENT, INDEX_DIR, INDEX_MARKER, INDEX_MARKER_CONTENT,
    OK_MARKER, SOURCE_MARKER_CONTENT, SRC_DIR,
};
use cache_sync::model::{Krate, Registry, Source};
use cache_sync::package::{
    expansion, next_package_step, package_steps, sync_package, validate_checksum,
    ChecksumMismatch, Expansion, PackageStep,
};
use cache_sync::probe::missing_set;
use cache_sync::run::{crates, SyncError};
use cache_sync::summary::{tally, Outcome, Summary};

fn foo() -> Krate {
    Krate {
        name: "foo".to_owned(),
        version: "1.0.0".to_owned(),
        source: Source::Registry {
            registry: "crates-io".to_owned(),
            chksum: "abc123def4567890".to_owned(),
        },
    }
}

fn bar() -> Krate {
    Krate {
        name: "bar".to_owned(),
        version: "0.3.0".to_owned(),
        source: Source::Git {
            url: "https://example.com/bar.git".to_owned(),
            ident: "bar-0f0f0f0f".to_owned(),
            rev: "deadbeef".to_owned(),
        },
    }
}

fn crates_io() -> Registry {
    Registry { ident: "crates-io".to_owned(), index: "https://idx.example/index".to_owned() }
}

#[test]
fn layout_constants_are_those_of_the_consumer() {
    assert_eq!(INDEX_DIR, "registry/index");
    assert_eq!(CACHE_DIR, "registry/cache");
    assert_eq!(SRC_DIR, "registry/src");
    assert_eq!(GIT_DB_DIR, "git/db");
    assert_eq!(GIT_CO_DIR, "git/checkouts");
    assert_eq!(INDEX_MARKER, ".last-updated");
    assert_eq!(OK_MARKER, ".cargo-ok");
    assert_eq!(SOURCE_MARKER_CONTENT, "ok");
    assert_eq!(GIT_MARKER_CONTENT, "");
    assert_eq!(INDEX_MARKER_CONTENT, "");
}

#[test]
fn layout_paths() {
    let r = crates_io();
    assert_eq!(join("a", "b"), "a/b");
    assert_eq!(r.index_dir(), "registry/index/crates-io");
    assert_eq!(r.index_marker(), "registry/index/crates-io/.last-updated");
    let (cache, src) = r.sync_dirs();
    assert_eq!(cache, "registry/cache/crates-io");
    assert_eq!(src, "registry/src/crates-io");
    assert_eq!(cache_file_path(&r, &foo()), "registry/cache/crates-io/foo-1.0.0.crate");
    assert_eq!(source_dir_path(&r, &foo()), "registry/src/crates-io/foo-1.0.0");
    assert_eq!(git_db_path(&bar()), "git/db/bar-0f0f0f0f");
    assert_eq!(git_checkout_path(&bar()), "git/checkouts/bar-0f0f0f0f/deadbeef");
}

#[test]
fn checksum_is_compared_without_regard_to_case() {
    assert!(validate_checksum("abc123", "abc123"));
    assert!(validate_checksum("ABC123", "abc123"));
    assert!(validate_checksum("aBc123", "AbC123"));
    assert!(validate_checksum("", ""));
    assert!(!validate_checksum("abc123", "abc124"));
    assert!(!validate_checksum("abc123", "abc12"));
    assert!(!validate_checksum("abc12", "abc123"));
    assert!(!validate_checksum("@bc", "`bc"));
    assert!(!validate_checksum("[bc", "{bc"));
}

#[test]
fn corrupted_archive_is_refused_and_nothing_is_planned() {
    let res = sync_package(&foo(), "abc123def4567891", "abc123def4567890", false, false);
    assert_eq!(res.err(), Some(ChecksumMismatch));
}

#[test]
fn authentic_archive_is_cached_and_expanded() {
    let plan = sync_package(&foo(), "ABC123DEF4567890", "abc123def4567890", false, false).unwrap();
    assert_eq!(plan.cache_file, "foo-1.0.0.crate");
    assert_eq!(plan.source_dir, "foo-1.0.0");
    assert_eq!(plan.expansion, Expansion::Unpack { remove_stale: false });
    assert_eq!(plan.steps, vec![PackageStep::Unpack, PackageStep::WriteMarker]);
}

#[test]
fn expansion_trusts_the_marker_alone() {
    assert_eq!(expansion(true, true), Expansion::Skip);
    assert_eq!(expansion(true, false), Expansion::Skip);
    assert_eq!(expansion(false, true), Expansion::Unpack { remove_stale: true });
    assert_eq!(expansion(false, false), Expansion::Unpack { remove_stale: false });
}

#[test]
fn stale_source_directory_is_removed_before_unpacking() {
    let plan = sync_package(&foo(), "00", "00", false, true).unwrap();
    assert_eq!(plan.expansion, Expansion::Unpack { remove_stale: true });
    let again = sync_package(&foo(), "00", "00", true, true).unwrap();
    assert_eq!(again.expansion, Expansion::Skip);
}

#[test]
fn git_steps_on_empty_disk() {
    assert_eq!(
        sync_git(false, false, false),
        vec![GitStep::UnpackDb, GitStep::Checkout, GitStep::WriteMarker]
    );
    assert_eq!(
        sync_git(false, false, true),
        vec![GitStep::UnpackDb, GitStep::UnpackCheckout, GitStep::WriteMarker]
    );
}

#[test]
fn git_steps_remove_what_is_there() {
    assert_eq!(
        sync_git(true, true, false),
        vec![
            GitStep::RemoveDb,
            GitStep::UnpackDb,
            GitStep::RemoveCheckout,
            GitStep::Checkout,
            GitStep::WriteMarker
        ]
    );
    assert_eq!(
        sync_git(true, false, true),
        vec![GitStep::RemoveDb, GitStep::UnpackDb, GitStep::UnpackCheckout, GitStep::WriteMarker]
    );
    assert_eq!(
        sync_git(false, true, true),
        vec![
            GitStep::UnpackDb,
            GitStep::RemoveCheckout,
            GitStep::UnpackCheckout,
            GitStep::WriteMarker
        ]
    );
}

#[test]
fn index_without_local_copy_is_fetched_whole() {
    let s = index_start(false);
    assert_eq!(s, IndexState::Fetching);
    assert_eq!(index_action(s), IndexAction::FetchSnapshot);
    assert_eq!(registry_index(s, true), (IndexState::Unpacking, IndexAction::UnpackSnapshot));
    assert_eq!(
        registry_index(IndexState::Unpacking, true),
        (IndexState::Marking, IndexAction::WriteFreshnessMarker)
    );
    assert_eq!(registry_index(IndexState::Marking, true), (IndexState::Synced, IndexAction::Stop));
    assert_eq!(registry_index(s, false), (IndexState::Failed, IndexAction::Stop));
    assert_eq!(registry_index(IndexState::Unpacking, false), (IndexState::Failed, IndexAction::Stop));
}

#[test]
fn existing_index_is_updated_and_marked() {
    let s = index_start(true);
    assert_eq!(s, IndexState::Updating);
    assert_eq!(index_action(s), IndexAction::FetchIncremental);
    assert_eq!(registry_index(s, true), (IndexState::Marking, IndexAction::WriteFreshnessMarker));
    assert_eq!(registry_index(IndexState::Marking, true), (IndexState::Synced, IndexAction::Stop));
    assert_eq!(registry_index(IndexState::Marking, false), (IndexState::Failed, IndexAction::Stop));
}

#[test]
fn failed_update_falls_back_to_full_fetch() {
    let (s1, a1) = registry_index(index_start(true), false);
    assert_eq!((s1, a1), (IndexState::Removing, IndexAction::RemoveIndexDir));
    let (s2, a2) = registry_index(s1, true);
    assert_eq!((s2, a2), (IndexState::Fetching, IndexAction::FetchSnapshot));
    let (s3, a3) = registry_index(s2, true);
    assert_eq!((s3, a3), (IndexState::Unpacking, IndexAction::UnpackSnapshot));
    let (s4, a4) = registry_index(s3, true);
    assert_eq!((s4, a4), (IndexState::Marking, IndexAction::WriteFreshnessMarker));
    let (s5, a5) = registry_index(s4, true);
    assert_eq!((s5, a5), (IndexState::Synced, IndexAction::Stop));
    assert_eq!(registry_index(s4, false), (IndexState::Failed, IndexAction::Stop));
    assert_eq!(registry_index(s1, false), (IndexState::Failed, IndexAction::Stop));
}

#[test]
fn final_index_states_stay() {
    for ok in [true, false] {
        assert_eq!(registry_index(IndexState::Synced, ok), (IndexState::Synced, IndexAction::Stop));
        assert_eq!(registry_index(IndexState::Failed, ok), (IndexState::Failed, IndexAction::Stop));
    }
}

#[test]
fn index_refspecs_update_branch_and_head() {
    assert_eq!(
        index_refspecs(),
        ["refs/heads/master:refs/remotes/origin/master", "HEAD:refs/remotes/origin/HEAD"]
    );
}

#[test]
fn failed_registries_are_listed_in_order() {
    let finals = vec![
        IndexState::Synced,
        IndexState::Failed,
        IndexState::Synced,
        IndexState::Failed,
        IndexState::Unpacking,
    ];
    assert_eq!(registry_indices(&finals), vec![1, 3, 4]);
    assert_eq!(registry_indices(&Vec::new()), Vec::<usize>::new());
}

#[test]
fn summary_counts_outcomes() {
    let mut s = Summary::zero();
    assert_eq!(s, Summary { total_bytes: 0, bad: 0, good: 0 });
    s.record(Outcome::Good { bytes: 10 });
    s.record(Outcome::Bad);
    s.record(Outcome::Good { bytes: 5 });
    assert_eq!(s, Summary { total_bytes: 15, bad: 1, good: 2 });
}

#[test]
fn summary_does_not_depend_on_order() {
    let outcomes = [Outcome::Good { bytes: 7 }, Outcome::Bad, Outcome::Good { bytes: 1 }];
    let mut a = Summary::zero();
    for o in outcomes.iter() {
        a.record(*o);
    }
    let mut b = Summary::zero();
    for o in outcomes.iter().rev() {
        b.record(*o);
    }
    assert_eq!(a, b);
    assert_eq!(a, Summary { total_bytes: 8, bad: 1, good: 2 });
}

#[test]
fn summary_has_room_until_a_counter_is_full() {
    let full = Summary { total_bytes: usize::MAX - 1, bad: u32::MAX, good: u32::MAX - 1 };
    assert!(full.has_room(Outcome::Good { bytes: 1 }));
    assert!(!full.has_room(Outcome::Good { bytes: 2 }));
    assert!(!full.has_room(Outcome::Bad));
    let good_full = Summary { total_bytes: 0, bad: 0, good: u32::MAX };
    assert!(!good_full.has_room(Outcome::Good { bytes: 0 }));
    assert!(good_full.has_room(Outcome::Bad));
}

#[test]
fn task_outcome_counts_the_bytes_fetched() {
    let data = Bytes::from_static(b"hello world");
    assert_eq!(task_outcome(Some(&data), true), Outcome::Good { bytes: 11 });
    assert_eq!(task_outcome(Some(&data), false), Outcome::Bad);
    assert_eq!(task_outcome(None, true), Outcome::Bad);
    assert_eq!(task_outcome(None, false), Outcome::Bad);
    assert_eq!(task_outcome(Some(&Bytes::new()), true), Outcome::Good { bytes: 0 });
}

#[test]
fn dispatcher_never_has_more_than_the_bound_in_flight() {
    let mut d = Dispatcher::new(100).unwrap();
    let mut started = Vec::new();
    while let Some(n) = d.start_next() {
        started.push(n);
    }
    assert_eq!(started, (0..32).collect::<Vec<usize>>());
    assert_eq!(d.in_flight, MAX_IN_FLIGHT);
    assert_eq!(MAX_IN_FLIGHT, 32);
    assert!(d.start_next().is_none());
    assert!(d.complete(Outcome::Bad));
    assert_eq!(d.in_flight, 31);
    assert_eq!(d.start_next(), Some(32));
    assert!(d.start_next().is_none());
    let mut most = d.in_flight;
    while !d.is_done() {
        while d.start_next().is_some() {}
        if d.in_flight > most {
            most = d.in_flight;
        }
        assert!(d.complete(Outcome::Good { bytes: 3 }));
    }
    assert_eq!(most, 32);
    assert_eq!(d.summary, Summary { total_bytes: 297, bad: 1, good: 99 });
}

#[test]
fn dispatcher_over_nothing_is_done_at_once() {
    let mut d = Dispatcher::new(0).unwrap();
    assert!(d.is_done());
    assert!(d.start_next().is_none());
    assert!(!d.complete(Outcome::Bad));
    assert_eq!(d.summary, Summary { total_bytes: 0, bad: 0, good: 0 });
}

#[test]
fn dispatcher_refuses_an_outcome_that_does_not_fit() {
    let mut d = Dispatcher::new(2).unwrap();
    assert_eq!(d.start_next(), Some(0));
    assert_eq!(d.start_next(), Some(1));
    assert!(d.complete(Outcome::Good { bytes: usize::MAX }));
    assert!(!d.complete(Outcome::Good { bytes: 1 }));
    assert_eq!(d.in_flight, 1);
    assert!(d.complete(Outcome::Bad));
    assert!(d.is_done());
    assert_eq!(d.summary, Summary { total_bytes: usize::MAX, bad: 1, good: 1 });
}

#[test]
fn full_sync_of_an_empty_disk() {
    let krates = vec![foo(), bar()];
    let registries = vec![crates_io()];
    let missing =
        missing_set(&krates, &vec![false, false], &registries, &vec![Some(Vec::new())]).unwrap();
    assert_eq!(missing.len(), 2);
    assert_eq!(missing[0].name, "bar");
    assert_eq!(missing[1].name, "foo");

    let foo_data = Bytes::from(vec![1u8; 120]);
    let bar_data = Bytes::from(vec![2u8; 300]);

    let mut d = Dispatcher::new(missing.len()).unwrap();
    assert_eq!(d.start_next(), Some(0));
    assert_eq!(d.start_next(), Some(1));
    assert_eq!(d.start_next(), None);
    assert_eq!(d.in_flight, 2);

    let steps = sync_git(false, false, false);
    assert_eq!(steps, vec![GitStep::UnpackDb, GitStep::Checkout, GitStep::WriteMarker]);
    assert!(d.complete(task_outcome(Some(&bar_data), true)));

    let plan = sync_package(missing[1], "ABC123DEF4567890", "abc123def4567890", false, false);
    let plan = plan.unwrap();
    assert_eq!(plan.expansion, Expansion::Unpack { remove_stale: false });
    assert!(d.complete(task_outcome(Some(&foo_data), true)));

    assert!(d.is_done());
    assert_eq!(d.summary, Summary { total_bytes: 420, bad: 0, good: 2 });

    let r = &registries[0];
    assert_eq!(cache_file_path(r, missing[1]), "registry/cache/crates-io/foo-1.0.0.crate");
    assert_eq!(
        join(&source_dir_path(r, missing[1]), OK_MARKER),
        "registry/src/crates-io/foo-1.0.0/.cargo-ok"
    );
    assert_eq!(git_db_path(missing[0]), "git/db/bar-0f0f0f0f");
    assert_eq!(
        join(&git_checkout_path(missing[0]), OK_MARKER),
        "git/checkouts/bar-0f0f0f0f/deadbeef/.cargo-ok"
    );

    let after = missing_set(
        &krates,
        &vec![false, true],
        &registries,
        &vec![Some(vec!["foo-1.0.0.crate".to_owned()])],
    )
    .unwrap();
    assert!(after.is_empty());
    let mut second = Dispatcher::new(after.len()).unwrap();
    assert!(second.start_next().is_none());
    assert!(second.is_done());
    assert_eq!(second.summary, Summary::zero());
}

#[test]
fn tally_counts_every_outcome_once() {
    let outcomes =
        vec![Outcome::Good { bytes: 4 }, Outcome::Bad, Outcome::Bad, Outcome::Good { bytes: 6 }];
    assert_eq!(tally(&outcomes), Some(Summary { total_bytes: 10, bad: 2, good: 2 }));
    assert_eq!(tally(&Vec::new()), Some(Summary { total_bytes: 0, bad: 0, good: 0 }));
}

#[test]
fn tally_gives_nothing_when_the_bytes_do_not_fit() {
    let outcomes = vec![Outcome::Good { bytes: usize::MAX }, Outcome::Bad, Outcome::Good { bytes: 1 }];
    assert_eq!(tally(&outcomes), None);
    let fits = vec![Outcome::Good { bytes: usize::MAX }, Outcome::Bad, Outcome::Good { bytes: 0 }];
    assert_eq!(tally(&fits), Some(Summary { total_bytes: usize::MAX, bad: 1, good: 2 }));
}

#[test]
fn run_starts_with_the_missing_set_and_nothing_in_flight() {
    let krates = vec![foo(), bar(), bar()];
    let registries = vec![crates_io()];
    let (to_sync, mut d) =
        crates(&krates, &vec![false, false, false], &registries, &vec![Some(Vec::new())]).unwrap();
    assert_eq!(to_sync.len(), 2);
    assert_eq!(to_sync[0].name, "bar");
    assert_eq!(to_sync[1].name, "foo");
    assert_eq!(d.total, 2);
    assert_eq!(d.started, 0);
    assert_eq!(d.in_flight, 0);
    assert_eq!(d.summary, Summary::zero());
    assert!(!d.is_done());
    assert_eq!(d.start_next(), Some(0));
}

#[test]
fn run_over_a_complete_disk_is_done_at_once() {
    let krates = vec![foo(), bar()];
    let registries = vec![crates_io()];
    let listings = vec![Some(vec!["foo-1.0.0.crate".to_owned()])];
    let (to_sync, mut d) = crates(&krates, &vec![false, true], &registries, &listings).unwrap();
    assert!(to_sync.is_empty());
    assert!(d.is_done());
    assert!(d.start_next().is_none());
    assert_eq!(d.summary, Summary { total_bytes: 0, bad: 0, good: 0 });
}

#[test]
fn run_cannot_start_without_a_cache_listing() {
    let krates = vec![foo(), bar()];
    let registries = vec![crates_io()];
    let res = crates(&krates, &vec![false, false], &registries, &vec![None]);
    assert_eq!(res.err(), Some(SyncError::CacheUnreadable { registry: 0 }));
}

#[test]
fn one_failing_package_does_not_stop_the_others() {
    let krates = vec![foo(), bar()];
    let registries = vec![crates_io()];
    let (to_sync, mut d) =
        crates(&krates, &vec![false, false], &registries, &vec![Some(Vec::new())]).unwrap();
    assert_eq!(to_sync.len(), 2);
    assert_eq!(d.start_next(), Some(0));
    assert_eq!(d.start_next(), Some(1));
    assert!(d.complete(task_outcome(None, false)));
    assert!(!d.is_done());
    let data = Bytes::from_static(b"0123456789");
    assert!(sync_package(to_sync[1], "ff", "fe", false, false).is_err());
    assert!(d.complete(task_outcome(Some(&data), false)));
    assert!(d.is_done());
    assert_eq!(d.summary, Summary { total_bytes: 0, bad: 2, good: 0 });
}

#[test]
fn dispatcher_takes_no_more_tasks_than_the_counters_count() {
    assert!(Dispatcher::new(u32::MAX as usize).is_some());
    if let Some(over) = (u32::MAX as usize).checked_add(1) {
        assert!(Dispatcher::new(over).is_none());
    }
}

#[test]
fn git_steps_follow_each_other_while_they_succeed() {
    let steps = sync_git(false, true, false);
    let mut results = Vec::new();
    let mut performed = Vec::new();
    while let Some(step) = next_git_step(&steps, &results) {
        performed.push(step);
        results.push(true);
    }
    assert_eq!(performed, steps);
    assert!(git_restored(&steps, &results));
}

#[test]
fn failed_git_step_ends_the_restoration_without_marker() {
    let steps = sync_git(true, true, true);
    assert_eq!(next_git_step(&steps, &vec![]), Some(GitStep::RemoveDb));
    assert_eq!(next_git_step(&steps, &vec![true]), Some(GitStep::UnpackDb));
    assert_eq!(next_git_step(&steps, &vec![true, false]), None);
    assert_eq!(next_git_step(&steps, &vec![true, true, true, false]), None);
    assert_eq!(next_git_step(&steps, &vec![true, true, true, true]), Some(GitStep::WriteMarker));
    assert_eq!(next_git_step(&steps, &vec![true, true, true, true, true]), None);
    assert!(!git_restored(&steps, &vec![true, false]));
    assert!(!git_restored(&steps, &vec![true, true, true, true]));
    assert!(!git_restored(&steps, &vec![true, true, true, true, false]));
    assert!(git_restored(&steps, &vec![true, true, true, true, true]));
}

#[test]
fn package_steps_in_their_order() {
    assert_eq!(package_steps(true, true), Vec::<PackageStep>::new());
    assert_eq!(package_steps(true, false), Vec::<PackageStep>::new());
    assert_eq!(package_steps(false, false), vec![PackageStep::Unpack, PackageStep::WriteMarker]);
    assert_eq!(
        package_steps(false, true),
        vec![PackageStep::RemoveStale, PackageStep::Unpack, PackageStep::WriteMarker]
    );
    let plan = sync_package(&foo(), "00", "00", false, true).unwrap();
    assert_eq!(plan.steps, package_steps(false, true));
    let skip = sync_package(&foo(), "00", "00", true, true).unwrap();
    assert!(skip.steps.is_empty());
}

#[test]
fn source_marker_is_written_only_after_unpacking() {
    let steps = package_steps(false, true);
    assert_eq!(next_package_step(&steps, &vec![]), Some(PackageStep::RemoveStale));
    assert_eq!(next_package_step(&steps, &vec![true]), Some(PackageStep::Unpack));
    assert_eq!(next_package_step(&steps, &vec![true, true]), Some(PackageStep::WriteMarker));
    assert_eq!(next_package_step(&steps, &vec![true, true, true]), None);
    assert_eq!(next_package_step(&steps, &vec![true, true, false]), None);
    assert_eq!(next_package_step(&steps, &vec![false]), None);
    assert_eq!(next_package_step(&steps, &vec![true, false]), None);
    let fresh = package_steps(false, false);
    assert_eq!(next_package_step(&fresh, &vec![]), Some(PackageStep::Unpack));
    assert_eq!(next_package_step(&fresh, &vec![false]), None);
    assert_eq!(next_package_step(&fresh, &vec![true]), Some(PackageStep::WriteMarker));
    assert_eq!(next_package_step(&Vec::new(), &vec![]), None);
}

#[test]
fn full_fetch_of_an_index_ends_with_its_marker() {
    let mut state = index_start(false);
    let mut actions = vec![index_action(state)];
    while actions[actions.len() - 1] != IndexAction::Stop {
        let (s, a) = registry_index(state, true);
        state = s;
        actions.push(a);
    }
    assert_eq!(state, IndexState::Synced);
    assert_eq!(
        actions,
        vec![
            IndexAction::FetchSnapshot,
            IndexAction::UnpackSnapshot,
            IndexAction::WriteFreshnessMarker,
            IndexAction::Stop
        ]
    );
}
