use vstd::prelude::*;
use crate::package::{pkg_id_eq, Package, PackageView, PrunedLockfile, Source};
use crate::version::{version_eq, Version, VersionView};

verus! {

/// A failure of the registry index lookup as a whole: the oracle is
/// all-or-nothing, so partial success is never reported.
pub struct FetchError {
    pub message: String,
}

impl View for FetchError {
    type V = Seq<char>;

    open spec fn view(&self) -> Seq<char> {
        self.message@
    }
}

/// One published version of a package as the registry index reports it:
/// the version, and whether the registry has withdrawn it.
pub struct IndexEntry {
    pub version: Version,
    pub yanked: bool,
}

/// The mathematical value of an [`IndexEntry`].
#[verifier::ext_equal]
pub struct IndexEntryView {
    pub version: VersionView,
    pub yanked: bool,
}

impl View for IndexEntry {
    type V = IndexEntryView;

    open spec fn view(&self) -> IndexEntryView {
        IndexEntryView { version: self.version@, yanked: self.yanked }
    }
}

/// The registry-sourced suffix of the lockfile: packages from version control
/// or local paths are left out unconditionally, since they cannot share a
/// withdrawal status with a same-named registry package.
pub open spec fn spec_registry_packages(lock: Seq<PackageView>) -> Seq<PackageView>
    decreases lock.len(),
{
    if lock.len() == 0 {
        Seq::empty()
    } else {
        let rest = spec_registry_packages(lock.drop_last());
        if lock.last().source == Source::Registry {
            rest.push(lock.last())
        } else {
            rest
        }
    }
}

/// The packages the oracle queries the registry index for: exactly the
/// registry-sourced entries of the lockfile, in order.
pub fn registry_packages(lockfile: &PrunedLockfile) -> (r: Vec<Package>)
    ensures
        r@.map_values(|p: Package| p@) == spec_registry_packages(lockfile@),
{
    let mut r: Vec<Package> = Vec::new();
    let n = lockfile.packages.len();
    let mut i: usize = 0;
    while i < n
        invariant
            n == lockfile@.len(),
            i <= n,
            r@.map_values(|p: Package| p@) == spec_registry_packages(lockfile@.take(i as int)),
        decreases n - i,
    {
        proof {
            assert(lockfile@[i as int] == lockfile.packages@[i as int]@);
            assert(lockfile@.take((i + 1) as int).drop_last() =~= lockfile@.take(i as int));
            assert(lockfile@.take((i + 1) as int).last() == lockfile@[i as int]);
        }
        if lockfile.packages[i].source.is_registry() {
            r.push(lockfile.packages[i].dup());
            proof {
                assert(r@.map_values(|p: Package| p@) =~= spec_registry_packages(
                    lockfile@.take((i + 1) as int),
                ));
            }
        } else {
            proof {
                assert(r@.map_values(|p: Package| p@) =~= spec_registry_packages(
                    lockfile@.take((i + 1) as int),
                ));
            }
        }
        i += 1;
    }
    proof {
        assert(lockfile@.take(n as int) =~= lockfile@);
    }
    r
}

/// Does the index report the exact version as published and withdrawn?
pub open spec fn spec_version_yanked(entries: Seq<IndexEntryView>, v: VersionView) -> bool {
    exists|i: int| 0 <= i < entries.len() && version_eq(entries[i].version, v) && entries[i].yanked
}

/// Is the exact version of the package marked withdrawn among the published
/// versions the index reported?
pub fn version_is_yanked(version: &Version, entries: &Vec<IndexEntry>) -> (r: bool)
    ensures
        r == spec_version_yanked(entries@.map_values(|e: IndexEntry| e@), version@),
{
    let ghost ev = entries@.map_values(|e: IndexEntry| e@);
    let n = entries.len();
    let mut i: usize = 0;
    while i < n
        invariant
            ev == entries@.map_values(|e: IndexEntry| e@),
            n == ev.len(),
            i <= n,
            forall|j: int| 0 <= j < i ==> !(version_eq(ev[j].version, version@) && ev[j].yanked),
        decreases n - i,
    {
        proof {
            assert(ev[i as int] == entries@[i as int]@);
        }
        if entries[i].yanked && entries[i].version.same_as(version) {
            return true;
        }
        i += 1;
    }
    false
}

/// The view of the per-candidate index answers: `None` where the index does
/// not know the package at all.
pub open spec fn lookups_view(l: Seq<Option<Vec<IndexEntry>>>) -> Seq<Option<Seq<IndexEntryView>>> {
    l.map_values(
        |o: Option<Vec<IndexEntry>>|
            match o {
                Some(v) => Some(v@.map_values(|e: IndexEntry| e@)),
                None => None,
            },
    )
}

/// The candidates whose exact version the index marks withdrawn, in order.
/// A candidate the index does not know is never reported.
pub open spec fn spec_find_yanked(
    cands: Seq<PackageView>,
    looks: Seq<Option<Seq<IndexEntryView>>>,
) -> Seq<PackageView>
    decreases cands.len(),
{
    if cands.len() == 0 || cands.len() != looks.len() {
        Seq::empty()
    } else {
        let rest = spec_find_yanked(cands.drop_last(), looks.drop_last());
        match looks.last() {
            Some(entries) => if spec_version_yanked(entries, cands.last().version) {
                rest.push(cands.last())
            } else {
                rest
            },
            None => rest,
        }
    }
}

/// Decide, from the registry candidates and the index's answer for each,
/// which packages are withdrawn. `lookups[i]` is the index's answer for
/// `candidates[i]`.
pub fn find_yanked(candidates: &Vec<Package>, lookups: &Vec<Option<Vec<IndexEntry>>>) -> (r: Vec<
    Package,
>)
    requires
        candidates@.len() == lookups@.len(),
    ensures
        r@.map_values(|p: Package| p@) == spec_find_yanked(
            candidates@.map_values(|p: Package| p@),
            lookups_view(lookups@),
        ),
{
    let ghost cv = candidates@.map_values(|p: Package| p@);
    let ghost lv = lookups_view(lookups@);
    let mut r: Vec<Package> = Vec::new();
    let n = candidates.len();
    let mut i: usize = 0;
    while i < n
        invariant
            cv == candidates@.map_values(|p: Package| p@),
            lv == lookups_view(lookups@),
            cv.len() == lv.len(),
            n == cv.len(),
            i <= n,
            r@.map_values(|p: Package| p@) == spec_find_yanked(
                cv.take(i as int),
                lv.take(i as int),
            ),
        decreases n - i,
    {
        proof {
            assert(cv.take((i + 1) as int).drop_last() =~= cv.take(i as int));
            assert(lv.take((i + 1) as int).drop_last() =~= lv.take(i as int));
            assert(cv.take((i + 1) as int).last() == cv[i as int]);
            assert(lv.take((i + 1) as int).last() == lv[i as int]);
            assert(cv[i as int] == candidates@[i as int]@);
        }
        match &lookups[i] {
            Some(entries) => {
                proof {
                    assert(lv[i as int] == Some(
                        lookups@[i as int]->Some_0@.map_values(|e: IndexEntry| e@),
                    ));
                }
                if version_is_yanked(&candidates[i].version, entries) {
                    r.push(candidates[i].dup());
                }
            },
            None => {
                proof {
                    assert(lv[i as int] is None);
                }
            },
        }
        proof {
            assert(r@.map_values(|p: Package| p@) =~= spec_find_yanked(
                cv.take((i + 1) as int),
                lv.take((i + 1) as int),
            ));
        }
        i += 1;
    }
    proof {
        assert(cv.take(n as int) =~= cv);
        assert(lv.take(n as int) =~= lv);
    }
    r
}

/// Every package the candidate filter keeps is registry-sourced.
pub proof fn lemma_registry_packages_sources(lock: Seq<PackageView>)
    ensures
        forall|i: int|
            0 <= i < spec_registry_packages(lock).len() ==> spec_registry_packages(
                lock,
            )[i].source == Source::Registry,
    decreases lock.len(),
{
    if lock.len() > 0 {
        lemma_registry_packages_sources(lock.drop_last());
    }
}

/// Whatever the oracle reports came from among its candidates.
pub proof fn lemma_find_yanked_from_candidates(
    cands: Seq<PackageView>,
    looks: Seq<Option<Seq<IndexEntryView>>>,
)
    ensures
        forall|i: int|
            0 <= i < spec_find_yanked(cands, looks).len() ==> cands.contains(
                spec_find_yanked(cands, looks)[i],
            ),
    decreases cands.len(),
{
    if cands.len() > 0 && cands.len() == looks.len() {
        lemma_find_yanked_from_candidates(cands.drop_last(), looks.drop_last());
        assert forall|i: int| 0 <= i < spec_find_yanked(cands, looks).len() implies cands.contains(
            spec_find_yanked(cands, looks)[i],
        ) by {
            let res = spec_find_yanked(cands, looks);
            let rest = spec_find_yanked(cands.drop_last(), looks.drop_last());
            if i < rest.len() {
                assert(rest[i] == res[i]);
                let j = choose|j: int| 0 <= j < cands.drop_last().len() && cands.drop_last()[j]
                    == rest[i];
                assert(cands[j] == res[i]);
            } else {
                assert(res[i] == cands.last());
                assert(cands[cands.len() - 1] == cands.last());
            }
        }
    }
}

/// A package sourced from version control or a local path is never part of
/// the oracle's result, whatever the index answered: the result only holds
/// registry-sourced packages of the lockfile.
pub proof fn lemma_yanked_only_registry(
    lock: Seq<PackageView>,
    looks: Seq<Option<Seq<IndexEntryView>>>,
)
    ensures
        forall|i: int|
            0 <= i < spec_find_yanked(spec_registry_packages(lock), looks).len()
                ==> spec_find_yanked(spec_registry_packages(lock), looks)[i].source
                == Source::Registry,
{
    let cands = spec_registry_packages(lock);
    lemma_registry_packages_sources(lock);
    lemma_find_yanked_from_candidates(cands, looks);
    assert forall|i: int|
        0 <= i < spec_find_yanked(cands, looks).len() implies spec_find_yanked(
        cands,
        looks,
    )[i].source == Source::Registry by {
        let p = spec_find_yanked(cands, looks)[i];
        assert(cands.contains(p));
        let j = choose|j: int| 0 <= j < cands.len() && cands[j] == p;
        assert(cands[j].source == Source::Registry);
    }
}

} // verus!
