use vstd::prelude::*;
use crate::version::{version_eq, Version, VersionView};

verus! {

/// The source a package was resolved from. Only registry-sourced packages can
/// share a withdrawal ("yank") status with a same-named package of the
/// registry index.
#[derive(Clone, Copy, Debug, PartialEq, Eq, Structural)]
pub enum Source {
    Registry,
    Git,
    Path,
    Other,
}

impl Source {
    /// True exactly for packages that come from a registry.
    pub fn is_registry(&self) -> (r: bool)
        ensures
            r == (*self == Source::Registry),
    {
        match self {
            Source::Registry => true,
            _ => false,
        }
    }
}

/// A resolved package of the lockfile or of the package graph. Identity for
/// matching purposes is name plus version; the source only matters for the
/// withdrawal check.
#[derive(Debug)]
pub struct Package {
    pub name: String,
    pub version: Version,
    pub source: Source,
}

/// The mathematical value of a [`Package`].
#[verifier::ext_equal]
pub struct PackageView {
    pub name: Seq<char>,
    pub version: VersionView,
    pub source: Source,
}

impl View for Package {
    type V = PackageView;

    open spec fn view(&self) -> PackageView {
        PackageView { name: self.name@, version: self.version@, source: self.source }
    }
}

/// Name-plus-version identity of packages, as used to match a reported
/// finding back to a graph node.
pub open spec fn pkg_id_eq(a: PackageView, b: PackageView) -> bool {
    a.name == b.name && version_eq(a.version, b.version)
}

impl Package {
    /// A copy of this package.
    pub fn dup(&self) -> (r: Package)
        ensures
            r@ == self@,
    {
        let r = Package { name: self.name.clone(), version: self.version.dup(), source: self.source };
        proof {
            assert(r@ =~= self@);
        }
        r
    }

    /// Do the two packages name the same name-plus-version identity?
    pub fn same_id(&self, other: &Package) -> (r: bool)
        ensures
            r == pkg_id_eq(self@, other@),
    {
        self.name == other.name && self.version.same_as(&other.version)
    }
}

/// The ordered sequence of packages relevant to the current check: already
/// pruned and deduplicated by the caller, and read-only to the engine.
pub struct PrunedLockfile {
    pub packages: Vec<Package>,
}

impl View for PrunedLockfile {
    type V = Seq<PackageView>;

    open spec fn view(&self) -> Seq<PackageView> {
        self.packages@.map_values(|p: Package| p@)
    }
}

/// No two lockfile entries share a name-plus-version identity.
pub open spec fn lockfile_distinct(lock: Seq<PackageView>) -> bool {
    forall|i: int, j: int|
        0 <= i < lock.len() && 0 <= j < lock.len() && i != j ==> !pkg_id_eq(lock[i], lock[j])
}

/// The caller's package graph: an indexed collection of resolved packages,
/// queried by name plus version. The index of a package is stable for the
/// whole run.
pub struct Krates {
    pub krates: Vec<Package>,
}

impl View for Krates {
    type V = Seq<PackageView>;

    open spec fn view(&self) -> Seq<PackageView> {
        self.krates@.map_values(|p: Package| p@)
    }
}

/// No two graph nodes share a name-plus-version identity, so every package
/// resolves to at most one index.
pub open spec fn krates_distinct(krates: Seq<PackageView>) -> bool {
    forall|i: int, j: int|
        0 <= i < krates.len() && 0 <= j < krates.len() && i != j ==> !pkg_id_eq(
            krates[i],
            krates[j],
        )
}

/// Does some graph node carry this package's identity?
pub open spec fn graph_resolves(krates: Seq<PackageView>, p: PackageView) -> bool {
    exists|i: int| 0 <= i < krates.len() && pkg_id_eq(krates[i], p)
}

/// The index the package resolves to. Meaningful only when
/// [`graph_resolves`] holds; unique when [`krates_distinct`] holds.
pub open spec fn graph_index(krates: Seq<PackageView>, p: PackageView) -> int {
    choose|i: int| 0 <= i < krates.len() && pkg_id_eq(krates[i], p)
}

/// Look a package up in the graph by name plus version, returning the first
/// index that matches.
pub fn krate_for_pkg(krates: &Krates, pkg: &Package) -> (r: Option<usize>)
    ensures
        match r {
            Some(i) => i < krates@.len() && pkg_id_eq(krates@[i as int], pkg@),
            None => !graph_resolves(krates@, pkg@),
        },
{
    let n = krates.krates.len();
    let mut i: usize = 0;
    while i < n
        invariant
            n == krates@.len(),
            i <= n,
            forall|j: int| 0 <= j < i ==> !pkg_id_eq(krates@[j], pkg@),
        decreases n - i,
    {
        if krates.krates[i].same_id(pkg) {
            return Some(i);
        }
        i += 1;
    }
    None
}

} // verus!
