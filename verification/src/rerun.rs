//! What holds of the missing set: no unit twice, nothing that is on
//! disk, everything that is not; and a second run finds nothing missing.

use vstd::prelude::*;
use crate::model::{Krate, Registry, belongs_to, is_git, local_id, sync_key};
use crate::order::{holds, lemma_precedes_strict, precedes};
use crate::probe::{
    all_found, first_of_key, first_with_key, git_missing, is_missing_set, key_among,
    registry_missing,
};

verus! {

/// In a missing set no two packages share a key, so each unit of
/// synchronization is fetched and written once, however many of the
/// required packages resolve to it.
pub proof fn lemma_missing_set_distinct(out: Seq<Krate>, found: Seq<Krate>, i: int, j: int)
    requires
        is_missing_set(out, found),
        0 <= i < out.len(),
        0 <= j < out.len(),
        i != j,
    ensures
        sync_key(out[i]) != sync_key(out[j]),
{
    lemma_precedes_strict(sync_key(out[i]), sync_key(out[j]));
    if i < j {
        assert(precedes(sync_key(out[i]), sync_key(out[j])));
    } else {
        assert(precedes(sync_key(out[j]), sync_key(out[i])));
    }
}

/// Where nothing was found missing, the missing set is empty.
pub proof fn lemma_missing_set_of_nothing(out: Seq<Krate>, found: Seq<Krate>)
    requires
        is_missing_set(out, found),
        found.len() == 0,
    ensures
        out.len() == 0,
{
    if out.len() > 0 {
        assert(first_of_key(found, out[0], found.len() as int));
    }
}

/// Where the marker of every repository package exists, none of them is
/// found missing.
pub proof fn lemma_git_all_present(krates: Seq<Krate>, marker_present: Seq<bool>, n: int)
    requires
        0 <= n <= krates.len(),
        marker_present.len() == krates.len(),
        forall|i: int| 0 <= i < n && is_git(#[trigger] krates[i]) ==> marker_present[i],
    ensures
        git_missing(krates, marker_present, n).len() == 0,
    decreases n,
{
    if n > 0 {
        lemma_git_all_present(krates, marker_present, n - 1);
    }
}

/// Where the cache holds the archive of every package of a registry, none
/// of them is found missing.
pub proof fn lemma_registry_all_present(
    krates: Seq<Krate>,
    ident: Seq<char>,
    cached: Seq<String>,
    n: int,
)
    requires
        0 <= n <= krates.len(),
        forall|i: int|
            0 <= i < n && belongs_to(#[trigger] krates[i], ident) ==> holds(
                cached,
                local_id(krates[i]),
            ),
    ensures
        registry_missing(krates, ident, cached, n).len() == 0,
    decreases n,
{
    if n > 0 {
        lemma_registry_all_present(krates, ident, cached, n - 1);
    }
}

/// A package without its marker, or without its archive in its registry's
/// cache, is found missing, whatever else is on disk.
pub proof fn lemma_absent_is_found(
    krates: Seq<Krate>,
    marker_present: Seq<bool>,
    ident: Seq<char>,
    cached: Seq<String>,
    i: int,
    n: int,
)
    requires
        0 <= i < n <= krates.len(),
        marker_present.len() == krates.len(),
    ensures
        is_git(krates[i]) && !marker_present[i] ==> git_missing(krates, marker_present, n).contains(
            krates[i],
        ),
        belongs_to(krates[i], ident) && !holds(cached, local_id(krates[i])) ==> registry_missing(
            krates,
            ident,
            cached,
            n,
        ).contains(krates[i]),
    decreases n,
{
    if i < n - 1 {
        lemma_absent_is_found(krates, marker_present, ident, cached, i, n - 1);
        let g = git_missing(krates, marker_present, n - 1);
        if g.contains(krates[i]) {
            let w = choose|w: int| 0 <= w < g.len() && g[w] == krates[i];
            assert(git_missing(krates, marker_present, n)[w] == krates[i]);
        }
        let m = registry_missing(krates, ident, cached, n - 1);
        if m.contains(krates[i]) {
            let w = choose|w: int| 0 <= w < m.len() && m[w] == krates[i];
            assert(registry_missing(krates, ident, cached, n)[w] == krates[i]);
        }
    } else {
        let g = git_missing(krates, marker_present, n);
        if is_git(krates[i]) && !marker_present[i] {
            assert(g[g.len() - 1] == krates[i]);
        }
        let m = registry_missing(krates, ident, cached, n);
        if belongs_to(krates[i], ident) && !holds(cached, local_id(krates[i])) {
            assert(m[m.len() - 1] == krates[i]);
        }
    }
}

/// What the first `r` registries add to what was found missing comes
/// after what was found before.
proof fn lemma_all_found_grows(
    krates: Seq<Krate>,
    marker_present: Seq<bool>,
    registries: Seq<Registry>,
    listings: Seq<Option<Vec<String>>>,
    q: int,
    r: int,
    k: Krate,
)
    requires
        0 <= q <= r,
        all_found(krates, marker_present, registries, listings, q).contains(k),
    ensures
        all_found(krates, marker_present, registries, listings, r).contains(k),
    decreases r,
{
    if q < r {
        lemma_all_found_grows(krates, marker_present, registries, listings, q, r - 1, k);
        let before = all_found(krates, marker_present, registries, listings, r - 1);
        let w = choose|w: int| 0 <= w < before.len() && before[w] == k;
        assert(all_found(krates, marker_present, registries, listings, r)[w] == k);
    }
}

/// A package that was found missing has its key in the missing set.
pub proof fn lemma_found_is_in_missing_set(out: Seq<Krate>, found: Seq<Krate>, k: Krate)
    requires
        is_missing_set(out, found),
        found.contains(k),
    ensures
        key_among(out, sync_key(k)),
{
    let w = choose|w: int| 0 <= w < found.len() && found[w] == k;
    assert(key_among(out, sync_key(found[w])));
}

/// A repository package whose marker is absent is in the missing set,
/// whatever else its checkout directory holds: so it is restored again.
pub proof fn lemma_unmarked_git_is_missing(
    krates: Seq<Krate>,
    marker_present: Seq<bool>,
    registries: Seq<Registry>,
    listings: Seq<Option<Vec<String>>>,
    out: Seq<Krate>,
    i: int,
)
    requires
        marker_present.len() == krates.len(),
        listings.len() == registries.len(),
        0 <= i < krates.len(),
        is_git(krates[i]),
        !marker_present[i],
        is_missing_set(
            out,
            all_found(krates, marker_present, registries, listings, registries.len() as int),
        ),
    ensures
        key_among(out, sync_key(krates[i])),
{
    lemma_absent_is_found(krates, marker_present, Seq::empty(), Seq::empty(), i, krates.len() as int);
    lemma_all_found_grows(
        krates,
        marker_present,
        registries,
        listings,
        0,
        registries.len() as int,
        krates[i],
    );
    lemma_found_is_in_missing_set(
        out,
        all_found(krates, marker_present, registries, listings, registries.len() as int),
        krates[i],
    );
}

/// A registry package whose archive is not in the cache of its registry
/// is in the missing set.
pub proof fn lemma_uncached_package_is_missing(
    krates: Seq<Krate>,
    marker_present: Seq<bool>,
    registries: Seq<Registry>,
    listings: Seq<Option<Vec<String>>>,
    out: Seq<Krate>,
    i: int,
    r: int,
)
    requires
        marker_present.len() == krates.len(),
        listings.len() == registries.len(),
        0 <= i < krates.len(),
        0 <= r < registries.len(),
        belongs_to(krates[i], registries[r].ident@),
        !holds(listings[r]->0@, local_id(krates[i])),
        is_missing_set(
            out,
            all_found(krates, marker_present, registries, listings, registries.len() as int),
        ),
    ensures
        key_among(out, sync_key(krates[i])),
{
    lemma_absent_is_found(
        krates,
        marker_present,
        registries[r].ident@,
        listings[r]->0@,
        i,
        krates.len() as int,
    );
    let before = all_found(krates, marker_present, registries, listings, r);
    let added = registry_missing(
        krates,
        registries[r].ident@,
        listings[r]->0@,
        krates.len() as int,
    );
    let w = choose|w: int| 0 <= w < added.len() && added[w] == krates[i];
    assert((before + added)[before.len() + w] == krates[i]);
    lemma_all_found_grows(
        krates,
        marker_present,
        registries,
        listings,
        r + 1,
        registries.len() as int,
        krates[i],
    );
    lemma_found_is_in_missing_set(
        out,
        all_found(krates, marker_present, registries, listings, registries.len() as int),
        krates[i],
    );
}

/// Where every repository package has its marker and every registry
/// package its archive in the cache of its registry, nothing is found
/// missing.
proof fn lemma_all_present(
    krates: Seq<Krate>,
    marker_present: Seq<bool>,
    registries: Seq<Registry>,
    listings: Seq<Option<Vec<String>>>,
    r: int,
)
    requires
        marker_present.len() == krates.len(),
        listings.len() == registries.len(),
        0 <= r <= registries.len(),
        forall|i: int| 0 <= i < krates.len() && is_git(#[trigger] krates[i]) ==> marker_present[i],
        forall|i: int, q: int|
            0 <= i < krates.len() && 0 <= q < registries.len() && belongs_to(
                #[trigger] krates[i],
                (#[trigger] registries[q]).ident@,
            ) ==> holds(listings[q]->0@, local_id(krates[i])),
    ensures
        all_found(krates, marker_present, registries, listings, r).len() == 0,
    decreases r,
{
    if r <= 0 {
        lemma_git_all_present(krates, marker_present, krates.len() as int);
    } else {
        lemma_all_present(krates, marker_present, registries, listings, r - 1);
        lemma_registry_all_present(
            krates,
            registries[r - 1].ident@,
            listings[r - 1]->0@,
            krates.len() as int,
        );
    }
}

/// A run on a disk where every required package is in place finds
/// nothing missing: its missing set is empty, so it fetches nothing.
pub proof fn lemma_complete_disk_needs_nothing(
    krates: Seq<Krate>,
    marker_present: Seq<bool>,
    registries: Seq<Registry>,
    listings: Seq<Option<Vec<String>>>,
    out: Seq<Krate>,
)
    requires
        marker_present.len() == krates.len(),
        listings.len() == registries.len(),
        forall|i: int| 0 <= i < krates.len() && is_git(#[trigger] krates[i]) ==> marker_present[i],
        forall|i: int, q: int|
            0 <= i < krates.len() && 0 <= q < registries.len() && belongs_to(
                #[trigger] krates[i],
                (#[trigger] registries[q]).ident@,
            ) ==> holds(listings[q]->0@, local_id(krates[i])),
        is_missing_set(
            out,
            all_found(krates, marker_present, registries, listings, registries.len() as int),
        ),
    ensures
        out.len() == 0,
{
    lemma_all_present(krates, marker_present, registries, listings, registries.len() as int);
    lemma_missing_set_of_nothing(
        out,
        all_found(krates, marker_present, registries, listings, registries.len() as int),
    );
}

/// Whatever is found missing is one of the required packages.
proof fn lemma_found_is_required(
    krates: Seq<Krate>,
    marker_present: Seq<bool>,
    registries: Seq<Registry>,
    listings: Seq<Option<Vec<String>>>,
    r: int,
    k: Krate,
)
    requires
        0 <= r,
        all_found(krates, marker_present, registries, listings, r).contains(k),
    ensures
        krates.contains(k),
    decreases r,
{
    let all = all_found(krates, marker_present, registries, listings, r);
    let w = choose|w: int| 0 <= w < all.len() && all[w] == k;
    if r <= 0 {
        lemma_git_missing_is_required(krates, marker_present, krates.len() as int, k);
    } else {
        let before = all_found(krates, marker_present, registries, listings, r - 1);
        if w < before.len() {
            assert(before[w] == k);
            lemma_found_is_required(krates, marker_present, registries, listings, r - 1, k);
        } else {
            let added = registry_missing(
                krates,
                registries[r - 1].ident@,
                listings[r - 1]->0@,
                krates.len() as int,
            );
            assert(added[w - before.len()] == k);
            lemma_registry_missing_is_required(
                krates,
                registries[r - 1].ident@,
                listings[r - 1]->0@,
                krates.len() as int,
                k,
            );
        }
    }
}

/// Only a repository package without its marker is found missing.
pub proof fn lemma_git_missing_is_required(
    krates: Seq<Krate>,
    marker_present: Seq<bool>,
    n: int,
    k: Krate,
)
    requires
        0 <= n <= krates.len(),
        git_missing(krates, marker_present, n).contains(k),
    ensures
        exists|i: int|
            0 <= i < n && #[trigger] krates[i] == k && is_git(krates[i]) && !marker_present[i],
        krates.contains(k),
    decreases n,
{
    let g = git_missing(krates, marker_present, n);
    let w = choose|w: int| 0 <= w < g.len() && g[w] == k;
    if n > 0 {
        let before = git_missing(krates, marker_present, n - 1);
        if w < before.len() {
            assert(before[w] == k);
            lemma_git_missing_is_required(krates, marker_present, n - 1, k);
            let i = choose|i: int|
                0 <= i < n - 1 && #[trigger] krates[i] == k && is_git(krates[i])
                    && !marker_present[i];
            assert(0 <= i < n && krates[i] == k && is_git(krates[i]) && !marker_present[i]);
        } else {
            assert(krates[n - 1] == k);
        }
    }
}

/// Only a package of the registry whose archive is not in the cache is
/// found missing.
pub proof fn lemma_registry_missing_is_required(
    krates: Seq<Krate>,
    ident: Seq<char>,
    cached: Seq<String>,
    n: int,
    k: Krate,
)
    requires
        0 <= n <= krates.len(),
        registry_missing(krates, ident, cached, n).contains(k),
    ensures
        exists|i: int|
            0 <= i < n && #[trigger] krates[i] == k && belongs_to(krates[i], ident) && !holds(
                cached,
                local_id(krates[i]),
            ),
        krates.contains(k),
    decreases n,
{
    let g = registry_missing(krates, ident, cached, n);
    let w = choose|w: int| 0 <= w < g.len() && g[w] == k;
    if n > 0 {
        let before = registry_missing(krates, ident, cached, n - 1);
        if w < before.len() {
            assert(before[w] == k);
            lemma_registry_missing_is_required(krates, ident, cached, n - 1, k);
            let i = choose|i: int|
                0 <= i < n - 1 && #[trigger] krates[i] == k && belongs_to(krates[i], ident)
                    && !holds(cached, local_id(krates[i]));
            assert(0 <= i < n && krates[i] == k && belongs_to(krates[i], ident) && !holds(
                cached,
                local_id(krates[i]),
            ));
        } else {
            assert(krates[n - 1] == k);
        }
    }
}

/// Two packages with one key are of one kind and, where they are
/// registry packages, of one registry.
pub open spec fn keys_tell_sources(krates: Seq<Krate>) -> bool {
    forall|i: int, j: int|
        0 <= i < krates.len() && 0 <= j < krates.len() && sync_key(#[trigger] krates[i])
            == sync_key(#[trigger] krates[j]) ==> is_git(krates[i]) == is_git(krates[j]) && (
        !is_git(krates[i]) ==> krates[i].source->registry@ == krates[j].source->registry@)
}

/// The disk after a run in which every unit of the missing set `out`
/// was written: a repository package has its marker if it had it before
/// or its unit is in `out`, and a cache holds what it held before and
/// the archives of its registry's units in `out`.
pub open spec fn disk_after(
    krates: Seq<Krate>,
    registries: Seq<Registry>,
    marker_before: Seq<bool>,
    listings_before: Seq<Option<Vec<String>>>,
    out: Seq<Krate>,
    marker_after: Seq<bool>,
    listings_after: Seq<Option<Vec<String>>>,
) -> bool {
    &&& marker_after.len() == krates.len()
    &&& listings_after.len() == registries.len()
    &&& forall|i: int|
        0 <= i < krates.len() && is_git(#[trigger] krates[i]) && (marker_before[i] || exists|j: int|
            0 <= j < out.len() && is_git(#[trigger] out[j]) && sync_key(out[j]) == sync_key(
                krates[i],
            )) ==> marker_after[i]
    &&& forall|r: int, name: Seq<char>|
        0 <= r < registries.len() && (#[trigger] holds(listings_before[r]->0@, name)
            || exists|j: int|
            0 <= j < out.len() && belongs_to(#[trigger] out[j], registries[r].ident@) && local_id(
                out[j],
            ) == name) ==> holds(listings_after[r]->0@, name)
}

/// A second run, on the disk that a run left in which every unit of its
/// missing set was written and nothing else changed, finds nothing
/// missing: it fetches nothing. This holds where a key tells the source,
/// so that the unit written for a key serves every package with that
/// key.
pub proof fn lemma_second_run_finds_nothing(
    krates: Seq<Krate>,
    registries: Seq<Registry>,
    marker_before: Seq<bool>,
    listings_before: Seq<Option<Vec<String>>>,
    out: Seq<Krate>,
    marker_after: Seq<bool>,
    listings_after: Seq<Option<Vec<String>>>,
    out_after: Seq<Krate>,
)
    requires
        marker_before.len() == krates.len(),
        listings_before.len() == registries.len(),
        keys_tell_sources(krates),
        is_missing_set(
            out,
            all_found(krates, marker_before, registries, listings_before, registries.len() as int),
        ),
        disk_after(
            krates,
            registries,
            marker_before,
            listings_before,
            out,
            marker_after,
            listings_after,
        ),
        is_missing_set(
            out_after,
            all_found(krates, marker_after, registries, listings_after, registries.len() as int),
        ),
    ensures
        out_after.len() == 0,
{
    let n = registries.len() as int;
    let found = all_found(krates, marker_before, registries, listings_before, n);
    assert forall|i: int| 0 <= i < krates.len() && is_git(#[trigger] krates[i]) implies marker_after[i] by {
        if !marker_before[i] {
            lemma_unmarked_git_is_missing(krates, marker_before, registries, listings_before, out, i);
            let j = choose|j: int| 0 <= j < out.len() && #[trigger] sync_key(out[j]) == sync_key(krates[i]);
            lemma_out_is_required(krates, marker_before, registries, listings_before, out, j);
            let m = choose|m: int| 0 <= m < krates.len() && krates[m] == out[j];
            assert(sync_key(krates[m]) == sync_key(krates[i]));
            assert(0 <= j < out.len() && is_git(out[j]) && sync_key(out[j]) == sync_key(krates[i]));
        }
    }
    assert forall|i: int, q: int|
        0 <= i < krates.len() && 0 <= q < registries.len() && belongs_to(
            #[trigger] krates[i],
            (#[trigger] registries[q]).ident@,
        ) implies holds(listings_after[q]->0@, local_id(krates[i])) by {
        let name = local_id(krates[i]);
        if !holds(listings_before[q]->0@, name) {
            lemma_uncached_package_is_missing(
                krates,
                marker_before,
                registries,
                listings_before,
                out,
                i,
                q,
            );
            let j = choose|j: int| 0 <= j < out.len() && #[trigger] sync_key(out[j]) == sync_key(krates[i]);
            lemma_out_is_required(krates, marker_before, registries, listings_before, out, j);
            let m = choose|m: int| 0 <= m < krates.len() && krates[m] == out[j];
            assert(sync_key(krates[m]) == sync_key(krates[i]));
            assert(0 <= j < out.len() && belongs_to(out[j], registries[q].ident@) && local_id(out[j])
                == name);
        }
        assert(holds(listings_before[q]->0@, name) || exists|j: int|
            0 <= j < out.len() && belongs_to(#[trigger] out[j], registries[q].ident@) && local_id(
                out[j],
            ) == name);
    }
    lemma_complete_disk_needs_nothing(krates, marker_after, registries, listings_after, out_after);
}

/// Every member of a missing set is one of the required packages.
pub proof fn lemma_out_is_required(
    krates: Seq<Krate>,
    marker_present: Seq<bool>,
    registries: Seq<Registry>,
    listings: Seq<Option<Vec<String>>>,
    out: Seq<Krate>,
    j: int,
)
    requires
        is_missing_set(
            out,
            all_found(krates, marker_present, registries, listings, registries.len() as int),
        ),
        0 <= j < out.len(),
    ensures
        krates.contains(out[j]),
{
    let found = all_found(krates, marker_present, registries, listings, registries.len() as int);
    assert(first_of_key(found, out[j], found.len() as int));
    let w = choose|w: int| 0 <= w < found.len() && #[trigger] found[w] == out[j] && first_with_key(found, w);
    assert(found.contains(out[j]));
    lemma_found_is_required(
        krates,
        marker_present,
        registries,
        listings,
        registries.len() as int,
        out[j],
    );
}

/// Two missing sets of one list have the same keys at the same places,
/// as far as both reach.
proof fn lemma_keys_agree(a: Seq<Krate>, b: Seq<Krate>, found: Seq<Krate>, i: int)
    requires
        is_missing_set(a, found),
        is_missing_set(b, found),
        0 <= i < a.len(),
        i < b.len(),
    ensures
        sync_key(a[i]) == sync_key(b[i]),
    decreases i,
{
    assert forall|j: int| 0 <= j < i implies sync_key(#[trigger] a[j]) == sync_key(b[j]) by {
        lemma_keys_agree(a, b, found, j);
    }
    let ja = lemma_place_not_before(a, b, found, i);
    let jb = lemma_place_not_before(b, a, found, i);
    lemma_precedes_strict(sync_key(a[i]), sync_key(b[i]));
    if ja > i {
        assert(precedes(sync_key(b[i]), sync_key(b[ja])));
        if jb > i {
            assert(precedes(sync_key(a[i]), sync_key(a[jb])));
        }
    }
}

/// Where two missing sets of one list agree in their keys below `i`, the
/// key of the first at `i` is in the second at `i` or later.
proof fn lemma_place_not_before(a: Seq<Krate>, b: Seq<Krate>, found: Seq<Krate>, i: int) -> (j: int)
    requires
        is_missing_set(a, found),
        is_missing_set(b, found),
        0 <= i < a.len(),
        forall|j: int| 0 <= j < i && j < b.len() ==> sync_key(#[trigger] a[j]) == sync_key(b[j]),
    ensures
        i <= j < b.len(),
        sync_key(b[j]) == sync_key(a[i]),
{
    assert(first_of_key(found, a[i], found.len() as int));
    let w = choose|w: int|
        0 <= w < found.len() && #[trigger] found[w] == a[i] && first_with_key(found, w);
    assert(key_among(b, sync_key(found[w])));
    let j = choose|j: int| 0 <= j < b.len() && #[trigger] sync_key(b[j]) == sync_key(found[w]);
    if j < i {
        assert(sync_key(a[j]) == sync_key(b[j]));
        assert(precedes(sync_key(a[j]), sync_key(a[i])));
        lemma_precedes_strict(sync_key(a[i]), sync_key(a[i]));
    }
    j
}

/// A list has one missing set only: what is said of it leaves nothing
/// open.
pub proof fn lemma_missing_set_unique(a: Seq<Krate>, b: Seq<Krate>, found: Seq<Krate>)
    requires
        is_missing_set(a, found),
        is_missing_set(b, found),
    ensures
        a == b,
{
    lemma_not_longer(a, b, found);
    lemma_not_longer(b, a, found);
    assert forall|i: int| 0 <= i < a.len() implies a[i] == b[i] by {
        lemma_keys_agree(a, b, found, i);
        assert(first_of_key(found, a[i], found.len() as int));
        assert(first_of_key(found, b[i], found.len() as int));
        let wa = choose|w: int|
            0 <= w < found.len() && #[trigger] found[w] == a[i] && first_with_key(found, w);
        let wb = choose|w: int|
            0 <= w < found.len() && #[trigger] found[w] == b[i] && first_with_key(found, w);
        if wa < wb {
            assert(sync_key(found[wa]) != sync_key(found[wb]));
        }
        if wb < wa {
            assert(sync_key(found[wb]) != sync_key(found[wa]));
        }
    }
    assert(a =~= b);
}

/// Of two missing sets of one list the second is no longer than the
/// first.
proof fn lemma_not_longer(a: Seq<Krate>, b: Seq<Krate>, found: Seq<Krate>)
    requires
        is_missing_set(a, found),
        is_missing_set(b, found),
    ensures
        b.len() <= a.len(),
{
    if a.len() < b.len() {
        let n = a.len() as int;
        assert forall|j: int| 0 <= j < n && j < a.len() implies sync_key(#[trigger] b[j])
            == sync_key(a[j]) by {
            lemma_keys_agree(a, b, found, j);
        }
        let j = lemma_place_not_before(b, a, found, n);
    }
}

} // verus!
