//! Where things lie below the root directory, as the package manager that
//! reads the mirror expects them. All paths are relative to the root and
//! use `/` between their parts.

use vstd::prelude::*;
use vstd::string::*;
use crate::model::{Krate, Registry, local_id, source_dir_name, sync_key};

verus! {

/// Registry indices, one directory for each registry.
pub const INDEX_DIR: &'static str = "registry/index";

/// Package archives, one directory for each registry.
pub const CACHE_DIR: &'static str = "registry/cache";

/// Expanded package sources, one directory for each registry.
pub const SRC_DIR: &'static str = "registry/src";

/// Bare repositories.
pub const GIT_DB_DIR: &'static str = "git/db";

/// Checkouts, by repository and revision.
pub const GIT_CO_DIR: &'static str = "git/checkouts";

/// Name of the freshness marker in an index directory.
pub const INDEX_MARKER: &'static str = ".last-updated";

/// Name of the marker of a finished checkout or expanded source.
pub const OK_MARKER: &'static str = ".cargo-ok";

/// What the marker of an expanded package source holds.
pub const SOURCE_MARKER_CONTENT: &'static str = "ok";

/// What the marker of a repository checkout holds: nothing.
pub const GIT_MARKER_CONTENT: &'static str = "";

/// What the freshness marker of an index holds: nothing.
pub const INDEX_MARKER_CONTENT: &'static str = "";

/// `dir`, a separator, `name`.
pub open spec fn joined(dir: Seq<char>, name: Seq<char>) -> Seq<char> {
    dir + "/"@ + name
}

/// `dir`, a separator, `name`.
pub fn join(dir: &str, name: &str) -> (p: String)
    ensures
        p@ == joined(dir@, name@),
{
    let mut p: String = String::from_str(dir);
    p.append("/");
    p.append(name);
    p
}

impl Registry {
    /// The directory of the registry's index.
    pub fn index_dir(&self) -> (p: String)
        ensures
            p@ == joined(INDEX_DIR@, self.ident@),
    {
        join(INDEX_DIR, self.ident.as_str())
    }

    /// The path of the freshness marker of the registry's index.
    pub fn index_marker(&self) -> (p: String)
        ensures
            p@ == joined(joined(INDEX_DIR@, self.ident@), INDEX_MARKER@),
    {
        join(self.index_dir().as_str(), INDEX_MARKER)
    }

    /// The two directories that the registry owns: that of its package
    /// archives and that of its expanded sources.
    pub fn sync_dirs(&self) -> (dirs: (String, String))
        ensures
            dirs.0@ == joined(CACHE_DIR@, self.ident@),
            dirs.1@ == joined(SRC_DIR@, self.ident@),
    {
        (join(CACHE_DIR, self.ident.as_str()), join(SRC_DIR, self.ident.as_str()))
    }
}

/// The directory of the bare repository of a package: shared by all
/// revisions of the repository.
pub fn git_db_path(k: &Krate) -> (p: String)
    ensures
        p@ == joined(GIT_DB_DIR@, local_id(*k)),
{
    join(GIT_DB_DIR, k.local_id().as_str())
}

/// The directory of the checkout of a repository package: the
/// repository's identity, then the revision.
pub fn git_checkout_path(k: &Krate) -> (p: String)
    ensures
        p@ == joined(GIT_CO_DIR@, sync_key(*k)),
{
    join(GIT_CO_DIR, k.sync_key().as_str())
}

/// The path of a package's archive in the cache of `registry`.
pub fn cache_file_path(registry: &Registry, k: &Krate) -> (p: String)
    ensures
        p@ == joined(joined(CACHE_DIR@, registry.ident@), local_id(*k)),
{
    join(registry.sync_dirs().0.as_str(), k.local_id().as_str())
}

/// The directory of a package's expanded source under `registry`.
pub fn source_dir_path(registry: &Registry, k: &Krate) -> (p: String)
    ensures
        p@ == joined(joined(SRC_DIR@, registry.ident@), source_dir_name(k.name@, k.version@)),
{
    join(registry.sync_dirs().1.as_str(), k.source_dir().as_str())
}

/// The marker of an expanded package source holds the two letters
/// `ok`; the marker of a repository checkout and the freshness marker of
/// an index hold nothing.
pub proof fn lemma_marker_contents()
    ensures
        SOURCE_MARKER_CONTENT@ == seq!['o', 'k'],
        GIT_MARKER_CONTENT@.len() == 0,
        INDEX_MARKER_CONTENT@.len() == 0,
        SOURCE_MARKER_CONTENT@ != GIT_MARKER_CONTENT@,
{
    reveal_strlit("ok");
    reveal_strlit("");
    assert(SOURCE_MARKER_CONTENT@ =~= seq!['o', 'k']);
}

} // verus!
