use vstd::prelude::*;
use crate::version::{pred_matches, Predicate, VersionView};

verus! {

/// What an advisory reports about the affected package.
#[derive(Clone, Copy, Debug, PartialEq, Eq, Structural)]
pub enum AdvisoryKind {
    Vulnerability,
    Unmaintained,
    Unsound,
    Notice,
}

/// The identifying attributes of one advisory record.
pub struct Metadata {
    pub id: String,
    pub title: String,
    pub description: String,
    pub package: String,
    pub kind: AdvisoryKind,
}

/// The mathematical value of a [`Metadata`].
#[verifier::ext_equal]
pub struct MetadataView {
    pub id: Seq<char>,
    pub title: Seq<char>,
    pub description: Seq<char>,
    pub package: Seq<char>,
    pub kind: AdvisoryKind,
}

impl View for Metadata {
    type V = MetadataView;

    open spec fn view(&self) -> MetadataView {
        MetadataView {
            id: self.id@,
            title: self.title@,
            description: self.description@,
            package: self.package@,
            kind: self.kind,
        }
    }
}

impl Metadata {
    /// A copy of this record.
    pub fn dup(&self) -> (r: Metadata)
        ensures
            r@ == self@,
    {
        let r = Metadata {
            id: self.id.clone(),
            title: self.title.clone(),
            description: self.description.clone(),
            package: self.package.clone(),
            kind: self.kind,
        };
        proof {
            assert(r@ =~= self@);
        }
        r
    }
}

/// The two declared range lists of an advisory. Each is declared in ascending
/// order by convention; the pre-release workaround walks them in reverse, so
/// that the most recently declared range is tried first.
pub struct Versions {
    pub patched: Vec<Predicate>,
    pub unaffected: Vec<Predicate>,
}

/// The mathematical value of a [`Versions`].
#[verifier::ext_equal]
pub struct VersionsView {
    pub patched: Seq<Predicate>,
    pub unaffected: Seq<Predicate>,
}

impl View for Versions {
    type V = VersionsView;

    open spec fn view(&self) -> VersionsView {
        VersionsView { patched: self.patched@, unaffected: self.unaffected@ }
    }
}

impl Versions {
    /// A copy of both range lists.
    pub fn dup(&self) -> (r: Versions)
        ensures
            r@ == self@,
    {
        let r = Versions {
            patched: dup_predicates(&self.patched),
            unaffected: dup_predicates(&self.unaffected),
        };
        proof {
            assert(r@ =~= self@);
        }
        r
    }
}

/// A copy of a predicate list.
pub fn dup_predicates(v: &Vec<Predicate>) -> (r: Vec<Predicate>)
    ensures
        r@ == v@,
{
    let mut r: Vec<Predicate> = Vec::new();
    let n = v.len();
    let mut i: usize = 0;
    while i < n
        invariant
            n == v@.len(),
            i <= n,
            r@ == v@.take(i as int),
        decreases n - i,
    {
        r.push(v[i]);
        proof {
            assert(r@ =~= v@.take((i + 1) as int));
        }
        i += 1;
    }
    proof {
        assert(v@.take(n as int) =~= v@);
    }
    r
}

/// Does no predicate of the list accept the version?
pub open spec fn no_pred_matches(preds: Seq<Predicate>, v: VersionView) -> bool {
    forall|i: int| 0 <= i < preds.len() ==> !pred_matches(preds[i], v)
}

/// A version is vulnerable under an advisory's ranges when it is neither
/// patched nor unaffected.
pub open spec fn spec_is_vulnerable(v: VersionView, ranges: VersionsView) -> bool {
    no_pred_matches(ranges.patched, v) && no_pred_matches(ranges.unaffected, v)
}

/// Does some predicate of the list accept the version?
pub fn any_pred_matches(preds: &Vec<Predicate>, v: &crate::version::Version) -> (r: bool)
    ensures
        r == !no_pred_matches(preds@, v@),
{
    let n = preds.len();
    let mut i: usize = 0;
    while i < n
        invariant
            n == preds@.len(),
            i <= n,
            forall|j: int| 0 <= j < i ==> !pred_matches(preds@[j], v@),
        decreases n - i,
    {
        if preds[i].matches(v) {
            return true;
        }
        i += 1;
    }
    false
}

/// One advisory: its metadata together with its declared ranges.
pub struct Advisory {
    pub metadata: Metadata,
    pub versions: Versions,
}

/// The mathematical value of an [`Advisory`].
#[verifier::ext_equal]
pub struct AdvisoryView {
    pub metadata: MetadataView,
    pub versions: VersionsView,
}

impl View for Advisory {
    type V = AdvisoryView;

    open spec fn view(&self) -> AdvisoryView {
        AdvisoryView { metadata: self.metadata@, versions: self.versions@ }
    }
}

/// One loaded advisory database.
pub struct Database {
    pub advisories: Vec<Advisory>,
}

impl View for Database {
    type V = Seq<AdvisoryView>;

    open spec fn view(&self) -> Seq<AdvisoryView> {
        self.advisories@.map_values(|a: Advisory| a@)
    }
}

/// One or more loaded advisory databases, queried together.
pub struct DbSet {
    pub dbs: Vec<Database>,
}

impl View for DbSet {
    type V = Seq<Seq<AdvisoryView>>;

    open spec fn view(&self) -> Seq<Seq<AdvisoryView>> {
        self.dbs@.map_values(|d: Database| d@)
    }
}

/// Does any loaded database hold an advisory with this identifier?
pub open spec fn spec_has_advisory(dbs: Seq<Seq<AdvisoryView>>, id: Seq<char>) -> bool {
    exists|d: int, i: int|
        0 <= d < dbs.len() && 0 <= i < dbs[d].len() && dbs[d][i].metadata.id == id
}

/// Advisory identifiers are unique across the whole set, so an identifier
/// names at most one advisory.
pub open spec fn dbset_ids_distinct(dbs: Seq<Seq<AdvisoryView>>) -> bool {
    forall|d1: int, i1: int, d2: int, i2: int|
        0 <= d1 < dbs.len() && 0 <= i1 < dbs[d1].len() && 0 <= d2 < dbs.len() && 0 <= i2
            < dbs[d2].len() && (d1 != d2 || i1 != i2) ==> dbs[d1][i1].metadata.id
            != dbs[d2][i2].metadata.id
}

impl DbSet {
    /// Is this identifier present in any loaded database?
    pub fn has_advisory(&self, id: &String) -> (r: bool)
        ensures
            r == spec_has_advisory(self@, id@),
    {
        let nd = self.dbs.len();
        let mut d: usize = 0;
        while d < nd
            invariant
                nd == self@.len(),
                d <= nd,
                forall|d2: int, i2: int|
                    0 <= d2 < d && 0 <= i2 < self@[d2].len() ==> self@[d2][i2].metadata.id != id@,
            decreases nd - d,
        {
            let na = self.dbs[d].advisories.len();
            let mut i: usize = 0;
            while i < na
                invariant
                    nd == self@.len(),
                    d < nd,
                    na == self@[d as int].len(),
                    i <= na,
                    forall|d2: int, i2: int|
                        0 <= d2 < d && 0 <= i2 < self@[d2].len() ==> self@[d2][i2].metadata.id
                            != id@,
                    forall|i2: int| 0 <= i2 < i ==> self@[d as int][i2].metadata.id != id@,
                decreases na - i,
            {
                proof {
                    assert(self@[d as int] == self.dbs@[d as int]@);
                    assert(self@[d as int][i as int] == self.dbs@[d as int].advisories@[i as int]@);
                }
                if self.dbs[d].advisories[i].metadata.id == *id {
                    proof {
                        assert(self@[d as int][i as int].metadata.id == id@);
                    }
                    return true;
                }
                i += 1;
            }
            d += 1;
        }
        false
    }
}

} // verus!
