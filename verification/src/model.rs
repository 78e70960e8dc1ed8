//! Packages, their sources and registries, and the names under which a
//! package lives on disk.

use vstd::prelude::*;
use vstd::string::*;

verus! {

/// Where a package comes from.
#[derive(Debug, Clone)]
pub enum Source {
    /// A registry, by its identity, and the checksum the archive must have
    /// (a digest in hexadecimal).
    Registry { registry: String, chksum: String },
    /// A repository: its URL, the short identity derived from the URL, and
    /// the revision.
    Git { url: String, ident: String, rev: String },
}

/// A package: the unit of synchronization.
#[derive(Debug, Clone)]
pub struct Krate {
    pub name: String,
    pub version: String,
    pub source: Source,
}

/// A registry: its identity and the location of its index.
#[derive(Debug, Clone)]
pub struct Registry {
    pub ident: String,
    pub index: String,
}

/// File extension of a package archive.
pub open spec fn archive_ext() -> Seq<char> {
    ".crate"@
}

/// What is added to a revision to name the archive of a ready checkout.
pub open spec fn companion_suffix() -> Seq<char> {
    "-checkout"@
}

/// Version of the entry under which a registry's index snapshot is
/// stored.
pub open spec fn index_version() -> Seq<char> {
    "1.0.0"@
}

/// Revision of the entry under which a registry's index snapshot is
/// stored.
pub open spec fn index_rev() -> Seq<char> {
    "feedc0de"@
}

/// Name of the directory a registry package is expanded into:
/// name, a hyphen, version.
pub open spec fn source_dir_name(name: Seq<char>, version: Seq<char>) -> Seq<char> {
    name + "-"@ + version
}

/// The local identifier: for a registry package the archive's file name,
/// for a repository its identity (shared by all its revisions).
pub open spec fn local_id(k: Krate) -> Seq<char> {
    match k.source {
        Source::Registry { .. } => source_dir_name(k.name@, k.version@) + archive_ext(),
        Source::Git { ident, .. } => ident@,
    }
}

/// The key of a synchronization unit: the local identifier and, for a
/// repository, the revision. Two packages with one key are fetched once.
pub open spec fn sync_key(k: Krate) -> Seq<char> {
    match k.source {
        Source::Registry { .. } => local_id(k),
        Source::Git { ident, rev, .. } => ident@ + "/"@ + rev@,
    }
}

/// The package has a repository as its source.
pub open spec fn is_git(k: Krate) -> bool {
    k.source is Git
}

/// The package's source is the registry with identity `ident`.
pub open spec fn belongs_to(k: Krate, ident: Seq<char>) -> bool {
    match k.source {
        Source::Registry { registry, .. } => registry@ == ident,
        Source::Git { .. } => false,
    }
}

impl Krate {
    /// The local identifier of the package.
    pub fn local_id(&self) -> (id: String)
        ensures
            id@ == local_id(*self),
    {
        match &self.source {
            Source::Registry { .. } => {
                let mut id: String = self.source_dir();
                id.append(".crate");
                id
            },
            Source::Git { ident, .. } => ident.clone(),
        }
    }

    /// Name, a hyphen, version: the local identifier of a registry package
    /// without the archive's extension.
    pub fn source_dir(&self) -> (dir: String)
        ensures
            dir@ == source_dir_name(self.name@, self.version@),
    {
        let mut dir: String = self.name.clone();
        dir.append("-");
        dir.append(self.version.as_str());
        dir
    }

    /// The key by which the package is told from others when fetching.
    pub fn sync_key(&self) -> (key: String)
        ensures
            key@ == sync_key(*self),
    {
        match &self.source {
            Source::Registry { .. } => self.local_id(),
            Source::Git { ident, rev, .. } => {
                let mut key: String = ident.clone();
                key.append("/");
                key.append(rev.as_str());
                key
            },
        }
    }

    /// Whether the package's source is `registry`.
    pub fn is_from(&self, registry: &Registry) -> (r: bool)
        ensures
            r == belongs_to(*self, registry.ident@),
    {
        match &self.source {
            Source::Registry { registry: owner, .. } => *owner == registry.ident,
            Source::Git { .. } => false,
        }
    }

    /// For a repository package, the identity under which the archive of a
    /// ready checkout is stored: the same package with the suffix added to
    /// its revision. A registry package has none.
    pub fn companion(&self) -> (c: Option<Krate>)
        ensures
            c is Some == is_git(*self),
            c is Some ==> {
                let k = c->0;
                &&& k.name@ == self.name@
                &&& k.version@ == self.version@
                &&& k.source is Git
                &&& k.source->url@ == self.source->url@
                &&& k.source->ident@ == self.source->ident@
                &&& k.source->rev@ == self.source->rev@ + companion_suffix()
            },
    {
        match &self.source {
            Source::Registry { .. } => None,
            Source::Git { url, ident, rev } => {
                let mut marked: String = rev.clone();
                marked.append("-checkout");
                Some(
                    Krate {
                        name: self.name.clone(),
                        version: self.version.clone(),
                        source: Source::Git { url: url.clone(), ident: ident.clone(), rev: marked },
                    },
                )
            },
        }
    }
}

impl Registry {
    /// The entry under which a snapshot of the registry's index is stored:
    /// a repository package named by the registry's identity, with a fixed
    /// version and a fixed revision.
    pub fn index_krate(&self) -> (k: Krate)
        ensures
            k.name@ == self.ident@,
            k.version@ == index_version(),
            k.source is Git,
            k.source->url@ == self.index@,
            k.source->ident@ == self.ident@,
            k.source->rev@ == index_rev(),
    {
        Krate {
            name: self.ident.clone(),
            version: String::from_str("1.0.0"),
            source: Source::Git {
                url: self.index.clone(),
                ident: self.ident.clone(),
                rev: String::from_str("feedc0de"),
            },
        }
    }
}

} // verus!
