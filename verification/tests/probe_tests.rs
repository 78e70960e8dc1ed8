use cache_sync::model::{Krate, Registry, Source};
use cache_sync::order::{binary_search, lower_bound, sort_names, str_precedes};
use cache_sync::probe::{
    dedup_missing, get_missing_git_sources, get_missing_registry_sources, marker_path,
    missing_set, ProbeError,
};

fn reg_krate(name: &str, version: &str, registry: &str, chksum: &str) -> Krate {
    Krate {
        name: name.to_owned(),
        version: version.to_owned(),
        source: Source::Registry { registry: registry.to_owned(), chksum: chksum.to_owned() },
    }
}

fn git_krate(name: &str, version: &str, ident: &str, rev: &str) -> Krate {
    Krate {
        name: name.to_owned(),
        version: version.to_owned(),
        source: Source::Git {
            url: format!("https://example.com/{}.git", name),
            ident: ident.to_owned(),
            rev: rev.to_owned(),
        },
    }
}

fn names(v: &[&str]) -> Vec<String> {
    v.iter().map(|s| s.to_string()).collect()
}

fn keys(v: &[&Krate]) -> Vec<String> {
    v.iter().map(|k| k.sync_key()).collect()
}

#[test]
fn local_id_of_registry_package_is_archive_name() {
    let k = reg_krate("foo", "1.0.0", "crates-io", "abc123");
    assert_eq!(k.local_id(), "foo-1.0.0.crate");
    assert_eq!(k.source_dir(), "foo-1.0.0");
    assert_eq!(k.sync_key(), "foo-1.0.0.crate");
}

#[test]
fn local_id_of_repository_is_its_identity() {
    let k = git_krate("bar", "0.2.0", "bar-0123456789abcdef", "deadbeef");
    assert_eq!(k.local_id(), "bar-0123456789abcdef");
    assert_eq!(k.sync_key(), "bar-0123456789abcdef/deadbeef");
    assert_eq!(marker_path(&k), Some("bar-0123456789abcdef/deadbeef/.cargo-ok".to_owned()));
}

#[test]
fn registry_package_has_no_checkout_marker() {
    let k = reg_krate("foo", "1.0.0", "crates-io", "abc123");
    assert_eq!(marker_path(&k), None);
    assert!(k.companion().is_none());
}

#[test]
fn companion_adds_suffix_to_revision() {
    let k = git_krate("bar", "0.2.0", "bar-01", "deadbeef");
    let c = k.companion().unwrap();
    assert_eq!(c.name, "bar");
    assert_eq!(c.version, "0.2.0");
    match c.source {
        Source::Git { url, ident, rev } => {
            assert_eq!(url, "https://example.com/bar.git");
            assert_eq!(ident, "bar-01");
            assert_eq!(rev, "deadbeef-checkout");
        }
        Source::Registry { .. } => panic!("a repository's companion is a repository"),
    }
}

#[test]
fn index_krate_has_fixed_version_and_revision() {
    let r = Registry { ident: "crates-io".to_owned(), index: "https://idx.example".to_owned() };
    let k = r.index_krate();
    assert_eq!(k.name, "crates-io");
    assert_eq!(k.version, "1.0.0");
    match k.source {
        Source::Git { url, ident, rev } => {
            assert_eq!(url, "https://idx.example");
            assert_eq!(ident, "crates-io");
            assert_eq!(rev, "feedc0de");
        }
        Source::Registry { .. } => panic!("the index is stored as a repository"),
    }
}

#[test]
fn is_from_compares_registry_identity() {
    let r = Registry { ident: "crates-io".to_owned(), index: "u".to_owned() };
    assert!(reg_krate("a", "1.0.0", "crates-io", "00").is_from(&r));
    assert!(!reg_krate("a", "1.0.0", "other", "00").is_from(&r));
    assert!(!git_krate("a", "1.0.0", "crates-io", "r").is_from(&r));
}

#[test]
fn str_precedes_is_lexicographic() {
    assert!(str_precedes("a", "b"));
    assert!(!str_precedes("b", "a"));
    assert!(str_precedes("ab", "abc"));
    assert!(!str_precedes("abc", "ab"));
    assert!(!str_precedes("abc", "abc"));
    assert!(str_precedes("", "a"));
    assert!(!str_precedes("", ""));
    assert!(str_precedes("Z", "a"));
    assert!(str_precedes("foo-1.0.0", "foo-1.0.1"));
}

#[test]
fn str_precedes_agrees_with_std_order() {
    let words = ["", "a", "A", "foo-1.0.0.crate", "foo-1.0.10.crate", "bar", "ba", "\u{e9}", "z"];
    for a in words.iter() {
        for b in words.iter() {
            assert_eq!(str_precedes(a, b), a < b);
        }
    }
}

#[test]
fn sort_names_sorts_and_keeps_every_name() {
    let v = names(&["pear", "apple", "fig", "apple", "banana"]);
    let sorted = sort_names(&v);
    assert_eq!(sorted, names(&["apple", "apple", "banana", "fig", "pear"]));
    assert_eq!(sort_names(&Vec::new()), Vec::<String>::new());
}

#[test]
fn binary_search_finds_exact_matches_only() {
    let sorted = sort_names(&names(&["c-1.0.0.crate", "a-1.0.0.crate", "b-2.0.0.crate"]));
    assert!(binary_search(&sorted, "a-1.0.0.crate"));
    assert!(binary_search(&sorted, "b-2.0.0.crate"));
    assert!(binary_search(&sorted, "c-1.0.0.crate"));
    assert!(!binary_search(&sorted, "b-2.0.0"));
    assert!(!binary_search(&sorted, "b-2.0.0.crates"));
    assert!(!binary_search(&sorted, ""));
    assert!(!binary_search(&Vec::new(), "a"));
}

#[test]
fn lower_bound_gives_the_place_of_a_name() {
    let sorted = names(&["b", "d", "d", "f"]);
    assert_eq!(lower_bound(&sorted, "a"), 0);
    assert_eq!(lower_bound(&sorted, "b"), 0);
    assert_eq!(lower_bound(&sorted, "c"), 1);
    assert_eq!(lower_bound(&sorted, "d"), 1);
    assert_eq!(lower_bound(&sorted, "e"), 3);
    assert_eq!(lower_bound(&sorted, "g"), 4);
}

#[test]
fn git_sources_without_marker_are_missing() {
    let krates = vec![
        git_krate("a", "1.0.0", "a-01", "r1"),
        reg_krate("b", "1.0.0", "crates-io", "00"),
        git_krate("c", "1.0.0", "c-01", "r2"),
        git_krate("d", "1.0.0", "d-01", "r3"),
    ];
    let present = vec![false, false, true, false];
    let mut to_sync: Vec<&Krate> = Vec::new();
    get_missing_git_sources(&krates, &present, &mut to_sync);
    assert_eq!(keys(&to_sync), names(&["a-01/r1", "d-01/r3"]));
}

#[test]
fn git_sources_are_appended_to_what_is_there() {
    let krates = vec![git_krate("a", "1.0.0", "a-01", "r1")];
    let earlier = git_krate("z", "1.0.0", "z-01", "r9");
    let mut to_sync: Vec<&Krate> = vec![&earlier];
    get_missing_git_sources(&krates, &vec![false], &mut to_sync);
    assert_eq!(keys(&to_sync), names(&["z-01/r9", "a-01/r1"]));
}

#[test]
fn registry_sources_without_archive_are_missing() {
    let krates = vec![
        reg_krate("a", "1.0.0", "crates-io", "00"),
        reg_krate("b", "2.0.0", "crates-io", "00"),
        reg_krate("c", "3.0.0", "other", "00"),
        git_krate("d", "1.0.0", "d-01", "r3"),
        reg_krate("e", "0.1.0", "crates-io", "00"),
    ];
    let registry = Registry { ident: "crates-io".to_owned(), index: "u".to_owned() };
    let cached = names(&["zzz", "b-2.0.0.crate", "a-1.0.0", "e-0.1.0.crate.part"]);
    let mut to_sync: Vec<&Krate> = Vec::new();
    get_missing_registry_sources(&krates, &registry, &cached, &mut to_sync);
    assert_eq!(keys(&to_sync), names(&["a-1.0.0.crate", "e-0.1.0.crate"]));
}

#[test]
fn dedup_keeps_first_of_each_key_in_key_order() {
    let a = git_krate("one", "1.0.0", "repo-01", "deadbeef");
    let b = git_krate("two", "2.0.0", "repo-01", "deadbeef");
    let c = git_krate("three", "1.0.0", "repo-01", "cafe");
    let d = reg_krate("foo", "1.0.0", "crates-io", "00");
    let out = dedup_missing(&vec![&a, &b, &d, &c, &a]);
    assert_eq!(keys(&out), names(&["foo-1.0.0.crate", "repo-01/cafe", "repo-01/deadbeef"]));
    assert_eq!(out[2].name, "one");
}

#[test]
fn two_packages_of_one_repository_and_revision_are_one_unit() {
    let krates = vec![
        git_krate("one", "1.0.0", "repo-01", "deadbeef"),
        git_krate("two", "2.0.0", "repo-01", "deadbeef"),
    ];
    let out = missing_set(&krates, &vec![false, false], &Vec::new(), &Vec::new()).unwrap();
    assert_eq!(out.len(), 1);
    assert_eq!(out[0].name, "one");
}

#[test]
fn nothing_is_missing_when_everything_is_present() {
    let krates = vec![
        reg_krate("foo", "1.0.0", "crates-io", "abc123"),
        git_krate("bar", "0.1.0", "bar-01", "deadbeef"),
    ];
    let registries = vec![Registry { ident: "crates-io".to_owned(), index: "u".to_owned() }];
    let listings = vec![Some(names(&["foo-1.0.0.crate"]))];
    let out = missing_set(&krates, &vec![false, true], &registries, &listings).unwrap();
    assert!(out.is_empty());
}

#[test]
fn deleted_marker_makes_a_repository_missing_again() {
    let krates = vec![git_krate("bar", "0.1.0", "bar-01", "deadbeef")];
    let with = missing_set(&krates, &vec![true], &Vec::new(), &Vec::new()).unwrap();
    assert!(with.is_empty());
    let without = missing_set(&krates, &vec![false], &Vec::new(), &Vec::new()).unwrap();
    assert_eq!(keys(&without), names(&["bar-01/deadbeef"]));
}

#[test]
fn unreadable_cache_fails_the_probe() {
    let krates = vec![reg_krate("foo", "1.0.0", "b", "abc123")];
    let registries = vec![
        Registry { ident: "a".to_owned(), index: "u".to_owned() },
        Registry { ident: "b".to_owned(), index: "v".to_owned() },
        Registry { ident: "c".to_owned(), index: "w".to_owned() },
    ];
    let listings = vec![Some(Vec::new()), None, None];
    let res = missing_set(&krates, &vec![false], &registries, &listings);
    assert_eq!(res.err(), Some(ProbeError { registry: 1 }));
}

#[test]
fn missing_set_of_empty_disk_holds_both_kinds() {
    let krates = vec![
        reg_krate("foo", "1.0.0", "crates-io", "abc123"),
        git_krate("bar", "0.1.0", "bar-01", "deadbeef"),
    ];
    let registries = vec![Registry { ident: "crates-io".to_owned(), index: "u".to_owned() }];
    let listings = vec![Some(Vec::new())];
    let out = missing_set(&krates, &vec![false, false], &registries, &listings).unwrap();
    assert_eq!(keys(&out), names(&["bar-01/deadbeef", "foo-1.0.0.crate"]));
}
