//! Finding out which of the required packages are not yet on disk.
//!
//! The caller looks at the disk and hands over what it saw: for each
//! package whether its checkout marker exists, and for each registry the
//! file names in its cache directory. A marker that exists is trusted;
//! for a registry package only the existence of its archive counts.

use vstd::prelude::*;
use vstd::string::*;
use crate::layout::OK_MARKER;
use crate::model::{Krate, Registry, Source, belongs_to, is_git, local_id, sync_key};
use crate::order::{
    binary_search, holds, in_order, lemma_insert_holds, lemma_insert_sorted, lemma_precedes_strict,
    lemma_precedes_total, lower_bound, precedes, sort_names, sorted,
};

verus! {

/// The packages behind a list of references.
pub open spec fn derefs(s: Seq<&Krate>) -> Seq<Krate> {
    Seq::new(s.len(), |i: int| *s[i])
}

/// Name of the marker of a finished repository checkout. It is empty.
pub open spec fn git_marker_name() -> Seq<char> {
    OK_MARKER@
}

/// Path of a repository package's checkout marker below the checkout
/// root: identity, revision, marker name.
pub open spec fn git_marker_path(k: Krate) -> Seq<char> {
    sync_key(k) + "/"@ + git_marker_name()
}

/// Of the first `n` packages, the repository packages without a marker,
/// in their order.
pub open spec fn git_missing(krates: Seq<Krate>, marker_present: Seq<bool>, n: int) -> Seq<Krate>
    decreases n,
{
    if n <= 0 {
        Seq::empty()
    } else {
        let before = git_missing(krates, marker_present, n - 1);
        if is_git(krates[n - 1]) && !marker_present[n - 1] {
            before.push(krates[n - 1])
        } else {
            before
        }
    }
}

/// Of the first `n` packages, those of the registry `ident` whose local
/// identifier is no file name in `cached`, in their order.
pub open spec fn registry_missing(
    krates: Seq<Krate>,
    ident: Seq<char>,
    cached: Seq<String>,
    n: int,
) -> Seq<Krate>
    decreases n,
{
    if n <= 0 {
        Seq::empty()
    } else {
        let before = registry_missing(krates, ident, cached, n - 1);
        if belongs_to(krates[n - 1], ident) && !holds(cached, local_id(krates[n - 1])) {
            before.push(krates[n - 1])
        } else {
            before
        }
    }
}

/// The path of the checkout marker of a repository package, below the
/// checkout root; a registry package has none here.
pub fn marker_path(k: &Krate) -> (p: Option<String>)
    ensures
        p is Some == is_git(*k),
        p is Some ==> p->0@ == git_marker_path(*k),
{
    if let Source::Git { .. } = &k.source {
        let mut p: String = k.sync_key();
        p.append("/");
        p.append(OK_MARKER);
        Some(p)
    } else {
        None
    }
}

/// Adds to `to_sync` each repository package whose checkout marker is
/// absent. `marker_present[i]` says whether the marker of `krates[i]`
/// exists; for a registry package it is not looked at.
pub fn get_missing_git_sources<'k>(
    krates: &'k Vec<Krate>,
    marker_present: &Vec<bool>,
    to_sync: &mut Vec<&'k Krate>,
)
    requires
        marker_present.len() == krates.len(),
    ensures
        derefs(final(to_sync)@) == derefs(old(to_sync)@) + git_missing(
            krates@,
            marker_present@,
            krates.len() as int,
        ),
{
    let mut i: usize = 0;
    while i < krates.len()
        invariant
            i <= krates.len(),
            marker_present.len() == krates.len(),
            derefs(to_sync@) == derefs(old(to_sync)@) + git_missing(
                krates@,
                marker_present@,
                i as int,
            ),
        decreases krates.len() - i,
    {
        let k: &'k Krate = &krates[i];
        let git: bool = match &k.source {
            Source::Git { .. } => true,
            Source::Registry { .. } => false,
        };
        if git && !marker_present[i] {
            proof {
                assert(derefs(to_sync@.push(k)) =~= derefs(to_sync@).push(*k));
                assert(derefs(old(to_sync)@) + git_missing(krates@, marker_present@, i + 1)
                    =~= (derefs(old(to_sync)@) + git_missing(
                    krates@,
                    marker_present@,
                    i as int,
                )).push(*k));
            }
            to_sync.push(k);
        }
        i = i + 1;
    }
}

/// Adds to `to_sync` each package of `registry` whose archive is not in
/// the registry's cache directory. `cached` holds the file names found
/// there, in any order; they are sorted once, and each package's local
/// identifier is looked up by binary search.
pub fn get_missing_registry_sources<'k>(
    krates: &'k Vec<Krate>,
    registry: &Registry,
    cached: &Vec<String>,
    to_sync: &mut Vec<&'k Krate>,
)
    ensures
        derefs(final(to_sync)@) == derefs(old(to_sync)@) + registry_missing(
            krates@,
            registry.ident@,
            cached@,
            krates.len() as int,
        ),
{
    let cached_crates: Vec<String> = sort_names(cached);
    let mut i: usize = 0;
    while i < krates.len()
        invariant
            i <= krates.len(),
            sorted(cached_crates@, false),
            forall|name: Seq<char>| holds(cached_crates@, name) == holds(cached@, name),
            derefs(to_sync@) == derefs(old(to_sync)@) + registry_missing(
                krates@,
                registry.ident@,
                cached@,
                i as int,
            ),
        decreases krates.len() - i,
    {
        let k: &'k Krate = &krates[i];
        if k.is_from(registry) {
            let krate_name: String = k.local_id();
            if !binary_search(&cached_crates, krate_name.as_str()) {
                proof {
                    assert(derefs(to_sync@.push(k)) =~= derefs(to_sync@).push(*k));
                    assert(derefs(old(to_sync)@) + registry_missing(
                        krates@,
                        registry.ident@,
                        cached@,
                        i + 1,
                    ) =~= (derefs(old(to_sync)@) + registry_missing(
                        krates@,
                        registry.ident@,
                        cached@,
                        i as int,
                    )).push(*k));
                }
                to_sync.push(k);
            }
        }
        i = i + 1;
    }
}

/// The keys of the packages increase strictly, so no two share one.
pub open spec fn strictly_keyed(s: Seq<Krate>) -> bool {
    forall|i: int, j: int|
        0 <= i < j < s.len() ==> precedes(#[trigger] sync_key(s[i]), #[trigger] sync_key(s[j]))
}

/// No package before position `j` has the key of the one at `j`.
pub open spec fn first_with_key(s: Seq<Krate>, j: int) -> bool {
    forall|i: int| 0 <= i < j ==> #[trigger] sync_key(s[i]) != sync_key(s[j])
}

/// `x` is among the first `k` packages of `found`, and the first of them
/// with its key.
pub open spec fn first_of_key(found: Seq<Krate>, x: Krate, k: int) -> bool {
    exists|j: int| 0 <= j < k && #[trigger] found[j] == x && first_with_key(found, j)
}

/// One of the packages of `out` has the key `key`.
pub open spec fn key_among(out: Seq<Krate>, key: Seq<char>) -> bool {
    exists|i: int| 0 <= i < out.len() && #[trigger] sync_key(out[i]) == key
}

/// `out` is `found` without repetitions: ordered strictly by key, each
/// member the first package of `found` with its key, and every key of
/// `found` present.
pub open spec fn is_missing_set(out: Seq<Krate>, found: Seq<Krate>) -> bool {
    &&& strictly_keyed(out)
    &&& forall|i: int|
        0 <= i < out.len() ==> first_of_key(found, #[trigger] out[i], found.len() as int)
    &&& forall|j: int| 0 <= j < found.len() ==> key_among(out, #[trigger] sync_key(found[j]))
}

/// As `is_missing_set`, of the first `k` packages of `found`, with the
/// keys of `out` written out in `keys`.
spec fn deduped_upto(out: Seq<Krate>, keys: Seq<String>, found: Seq<Krate>, k: int) -> bool {
    &&& keys.len() == out.len()
    &&& sorted(keys, true)
    &&& forall|i: int| 0 <= i < out.len() ==> #[trigger] keys[i]@ == sync_key(out[i])
    &&& forall|i: int| 0 <= i < out.len() ==> first_of_key(found, #[trigger] out[i], k)
    &&& forall|j: int| 0 <= j < k ==> holds(keys, #[trigger] sync_key(found[j]))
}

proof fn lemma_dedup_skip(out: Seq<Krate>, keys: Seq<String>, found: Seq<Krate>, k: int, p: int)
    requires
        0 <= k < found.len(),
        deduped_upto(out, keys, found, k),
        0 <= p < keys.len(),
        keys[p]@ == sync_key(found[k]),
    ensures
        deduped_upto(out, keys, found, k + 1),
{
    assert forall|i: int| 0 <= i < out.len() implies first_of_key(
        found,
        #[trigger] out[i],
        k + 1,
    ) by {
        assert(first_of_key(found, out[i], k));
        let j = choose|j: int| 0 <= j < k && #[trigger] found[j] == out[i] && first_with_key(found, j);
        assert(0 <= j < k + 1 && found[j] == out[i] && first_with_key(found, j));
    }
}

proof fn lemma_dedup_insert(
    out: Seq<Krate>,
    keys: Seq<String>,
    found: Seq<Krate>,
    k: int,
    p: int,
    key: String,
)
    requires
        0 <= k < found.len(),
        deduped_upto(out, keys, found, k),
        0 <= p <= keys.len(),
        key@ == sync_key(found[k]),
        forall|i: int| 0 <= i < p ==> precedes(#[trigger] keys[i]@, key@),
        forall|i: int| p <= i < keys.len() ==> !precedes(#[trigger] keys[i]@, key@),
        p < keys.len() ==> keys[p]@ != key@,
    ensures
        deduped_upto(out.insert(p, found[k]), keys.insert(p, key), found, k + 1),
{
    let x = found[k];
    let out2 = out.insert(p, x);
    let keys2 = keys.insert(p, key);
    assert forall|i: int| 0 <= i < keys.len() implies #[trigger] keys[i]@ != key@ by {
        lemma_precedes_strict(key@, key@);
        if p < i {
            assert(in_order(keys[p]@, keys[i]@, true));
        }
    }
    assert forall|i: int| p <= i < keys.len() implies in_order(key@, #[trigger] keys[i]@, true) by {
        lemma_precedes_total(keys[i]@, key@);
    }
    lemma_insert_sorted(keys, p, key, true);
    assert(first_with_key(found, k)) by {
        assert forall|j: int| 0 <= j < k implies #[trigger] sync_key(found[j]) != sync_key(
            found[k],
        ) by {
            assert(holds(keys, sync_key(found[j])));
        }
    }
    assert forall|i: int| 0 <= i < out2.len() implies #[trigger] keys2[i]@ == sync_key(out2[i]) by {
        if i != p {
            let a = if i < p { i } else { i - 1 };
            assert(keys2[i] == keys[a]);
            assert(out2[i] == out[a]);
        }
    }
    assert forall|i: int| 0 <= i < out2.len() implies first_of_key(
        found,
        #[trigger] out2[i],
        k + 1,
    ) by {
        if i == p {
            assert(0 <= k < k + 1 && found[k] == out2[i] && first_with_key(found, k));
        } else {
            let a = if i < p { i } else { i - 1 };
            assert(out2[i] == out[a]);
            assert(first_of_key(found, out[a], k));
            let j = choose|j: int|
                0 <= j < k && #[trigger] found[j] == out[a] && first_with_key(found, j);
            assert(0 <= j < k + 1 && found[j] == out2[i] && first_with_key(found, j));
        }
    }
    assert forall|j: int| 0 <= j < k + 1 implies holds(keys2, #[trigger] sync_key(found[j])) by {
        lemma_insert_holds(keys, p, key, sync_key(found[j]));
        if j < k {
            assert(holds(keys, sync_key(found[j])));
        }
    }
}

proof fn lemma_dedup_done(out: Seq<Krate>, keys: Seq<String>, found: Seq<Krate>)
    requires
        deduped_upto(out, keys, found, found.len() as int),
    ensures
        is_missing_set(out, found),
{
    assert forall|i: int, j: int| 0 <= i < j < out.len() implies precedes(
        #[trigger] sync_key(out[i]),
        #[trigger] sync_key(out[j]),
    ) by {
        assert(in_order(keys[i]@, keys[j]@, true));
    }
    assert forall|j: int| 0 <= j < found.len() implies key_among(
        out,
        #[trigger] sync_key(found[j]),
    ) by {
        assert(holds(keys, sync_key(found[j])));
        let i = choose|i: int| 0 <= i < keys.len() && #[trigger] keys[i]@ == sync_key(found[j]);
        assert(sync_key(out[i]) == sync_key(found[j]));
    }
}

/// Orders the packages found missing by key and keeps one of each key,
/// the first found.
pub fn dedup_missing<'k>(to_sync: &Vec<&'k Krate>) -> (out: Vec<&'k Krate>)
    ensures
        is_missing_set(derefs(out@), derefs(to_sync@)),
{
    let mut out: Vec<&'k Krate> = Vec::new();
    let mut keys: Vec<String> = Vec::new();
    let ghost found = derefs(to_sync@);
    let mut k: usize = 0;
    while k < to_sync.len()
        invariant
            k <= to_sync.len(),
            found == derefs(to_sync@),
            deduped_upto(derefs(out@), keys@, found, k as int),
        decreases to_sync.len() - k,
    {
        let x: &'k Krate = to_sync[k];
        let key: String = x.sync_key();
        let p: usize = lower_bound(&keys, key.as_str());
        let dup: bool = p < keys.len() && keys[p] == key;
        if dup {
            proof {
                lemma_dedup_skip(derefs(out@), keys@, found, k as int, p as int);
            }
        } else {
            proof {
                lemma_dedup_insert(derefs(out@), keys@, found, k as int, p as int, key);
                assert(derefs(out@.insert(p as int, x)) =~= derefs(out@).insert(p as int, found[k as int]));
            }
            keys.insert(p, key);
            out.insert(p, x);
        }
        k = k + 1;
    }
    proof {
        lemma_dedup_done(derefs(out@), keys@, found);
    }
    out
}

/// The cache directory of a registry could not be listed, so nothing can
/// be said about what is missing.
#[derive(Debug, Clone, Copy, PartialEq, Eq)]
pub struct ProbeError {
    /// Position of the registry among those given.
    pub registry: usize,
}

/// Everything found missing, before repetitions are removed: the
/// repository packages without a marker, then for each of the first `r`
/// registries its packages without an archive in the cache.
pub open spec fn all_found(
    krates: Seq<Krate>,
    marker_present: Seq<bool>,
    registries: Seq<Registry>,
    listings: Seq<Option<Vec<String>>>,
    r: int,
) -> Seq<Krate>
    decreases r,
{
    if r <= 0 {
        git_missing(krates, marker_present, krates.len() as int)
    } else {
        all_found(krates, marker_present, registries, listings, r - 1) + registry_missing(
            krates,
            registries[r - 1].ident@,
            listings[r - 1]->0@,
            krates.len() as int,
        )
    }
}

/// The missing set: the required packages that are not valid on disk,
/// one for each key, ordered by key.
///
/// `marker_present[i]` says whether the checkout marker of `krates[i]`
/// exists. `listings[r]` holds the file names in the cache directory of
/// `registries[r]`, or nothing where the directory could not be read:
/// then the whole probe fails, with the first such registry.
pub fn missing_set<'k>(
    krates: &'k Vec<Krate>,
    marker_present: &Vec<bool>,
    registries: &Vec<Registry>,
    listings: &Vec<Option<Vec<String>>>,
) -> (res: Result<Vec<&'k Krate>, ProbeError>)
    requires
        marker_present.len() == krates.len(),
        listings.len() == registries.len(),
    ensures
        match res {
            Ok(out) => {
                &&& forall|r: int| 0 <= r < listings.len() ==> (#[trigger] listings[r]) is Some
                &&& is_missing_set(
                    derefs(out@),
                    all_found(
                        krates@,
                        marker_present@,
                        registries@,
                        listings@,
                        registries.len() as int,
                    ),
                )
            },
            Err(e) => {
                &&& e.registry < listings.len()
                &&& listings[e.registry as int] is None
                &&& forall|r: int| 0 <= r < e.registry ==> (#[trigger] listings[r]) is Some
            },
        },
{
    let mut to_sync: Vec<&'k Krate> = Vec::new();
    get_missing_git_sources(krates, marker_present, &mut to_sync);
    assert(derefs(to_sync@) =~= all_found(krates@, marker_present@, registries@, listings@, 0));
    let mut r: usize = 0;
    while r < registries.len()
        invariant
            r <= registries.len(),
            listings.len() == registries.len(),
            forall|q: int| 0 <= q < r ==> (#[trigger] listings[q]) is Some,
            derefs(to_sync@) == all_found(
                krates@,
                marker_present@,
                registries@,
                listings@,
                r as int,
            ),
        decreases registries.len() - r,
    {
        match &listings[r] {
            Some(cached) => {
                get_missing_registry_sources(krates, &registries[r], cached, &mut to_sync);
            },
            None => {
                return Err(ProbeError { registry: r });
            },
        }
        r = r + 1;
    }
    Ok(dedup_missing(&to_sync))
}

} // verus!
