use vstd::prelude::*;
use crate::advisory::{
    any_pred_matches, spec_is_vulnerable, AdvisoryKind, AdvisoryView, DbSet, Metadata,
    MetadataView, Versions, VersionsView,
};
use crate::package::{Package, PackageView, PrunedLockfile};

verus! {

/// The raw report blobs are serde_json values, carried through opaquely for
/// replay to audit-compatible consumers.
#[verifier::external_type_specification]
#[verifier::external_body]
pub struct ExValue(serde_json::Value);

/// Relies on serde_json's `Value::from` on a vector of strings: packs the
/// matched advisory identifiers of one database into one JSON array blob.
#[verifier::external_body]
fn blob_from_ids(ids: Vec<String>) -> serde_json::Value {
    serde_json::Value::from(ids)
}

/// One vulnerability finding: the lockfile package, the advisory that
/// affects it, and the advisory's declared ranges.
pub struct Vulnerability {
    pub package: Package,
    pub advisory: Metadata,
    pub versions: Versions,
}

/// The mathematical value of a [`Vulnerability`].
#[verifier::ext_equal]
pub struct VulnerabilityView {
    pub package: PackageView,
    pub advisory: MetadataView,
    pub versions: VersionsView,
}

impl View for Vulnerability {
    type V = VulnerabilityView;

    open spec fn view(&self) -> VulnerabilityView {
        VulnerabilityView {
            package: self.package@,
            advisory: self.advisory@,
            versions: self.versions@,
        }
    }
}

/// One informational finding. The engine only reports warnings that carry an
/// advisory; the ranges may be absent for advisories that declare none.
pub struct Warning {
    pub package: Package,
    pub advisory: Option<Metadata>,
    pub versions: Option<Versions>,
}

/// The mathematical value of a [`Warning`].
#[verifier::ext_equal]
pub struct WarningView {
    pub package: PackageView,
    pub advisory: Option<MetadataView>,
    pub versions: Option<VersionsView>,
}

impl View for Warning {
    type V = WarningView;

    open spec fn view(&self) -> WarningView {
        WarningView {
            package: self.package@,
            advisory: match &self.advisory {
                Some(a) => Some(a@),
                None => None,
            },
            versions: match &self.versions {
                Some(v) => Some(v@),
                None => None,
            },
        }
    }
}

/// What one run of the generator produced: vulnerabilities, informational
/// warnings, and, when asked for, one raw serialized blob per database.
pub struct Report {
    pub vulnerabilities: Vec<Vulnerability>,
    pub warnings: Vec<Warning>,
    pub serialized_reports: Vec<serde_json::Value>,
}

/// The mathematical value of a [`Report`].
#[verifier::ext_equal]
pub struct ReportView {
    pub vulnerabilities: Seq<VulnerabilityView>,
    pub warnings: Seq<WarningView>,
    pub serialized: Seq<serde_json::Value>,
}

impl View for Report {
    type V = ReportView;

    open spec fn view(&self) -> ReportView {
        ReportView {
            vulnerabilities: self.vulnerabilities@.map_values(|v: Vulnerability| v@),
            warnings: self.warnings@.map_values(|w: Warning| w@),
            serialized: self.serialized_reports@,
        }
    }
}

/// Does the advisory affect this package: same package name, and the
/// package's version neither patched nor unaffected?
pub open spec fn adv_matches_pkg(a: AdvisoryView, p: PackageView) -> bool {
    a.metadata.package == p.name && spec_is_vulnerable(p.version, a.versions)
}

/// The vulnerability records one package gains from one database's
/// advisories, in declaration order.
pub open spec fn vulns_of_pkg(advs: Seq<AdvisoryView>, p: PackageView) -> Seq<VulnerabilityView>
    decreases advs.len(),
{
    if advs.len() == 0 {
        Seq::empty()
    } else {
        let rest = vulns_of_pkg(advs.drop_last(), p);
        let a = advs.last();
        if adv_matches_pkg(a, p) && a.metadata.kind == AdvisoryKind::Vulnerability {
            rest.push(VulnerabilityView { package: p, advisory: a.metadata, versions: a.versions })
        } else {
            rest
        }
    }
}

/// The warning records one package gains from one database's advisories, in
/// declaration order: every match whose kind is not `Vulnerability`.
pub open spec fn warns_of_pkg(advs: Seq<AdvisoryView>, p: PackageView) -> Seq<WarningView>
    decreases advs.len(),
{
    if advs.len() == 0 {
        Seq::empty()
    } else {
        let rest = warns_of_pkg(advs.drop_last(), p);
        let a = advs.last();
        if adv_matches_pkg(a, p) && a.metadata.kind != AdvisoryKind::Vulnerability {
            rest.push(
                WarningView { package: p, advisory: Some(a.metadata), versions: Some(a.versions) },
            )
        } else {
            rest
        }
    }
}

/// One database's vulnerability records over the whole lockfile, package by
/// package in lockfile order.
pub open spec fn vulns_of_db(advs: Seq<AdvisoryView>, lock: Seq<PackageView>) -> Seq<
    VulnerabilityView,
>
    decreases lock.len(),
{
    if lock.len() == 0 {
        Seq::empty()
    } else {
        vulns_of_db(advs, lock.drop_last()) + vulns_of_pkg(advs, lock.last())
    }
}

/// One database's warning records over the whole lockfile.
pub open spec fn warns_of_db(advs: Seq<AdvisoryView>, lock: Seq<PackageView>) -> Seq<WarningView>
    decreases lock.len(),
{
    if lock.len() == 0 {
        Seq::empty()
    } else {
        warns_of_db(advs, lock.drop_last()) + warns_of_pkg(advs, lock.last())
    }
}

/// All vulnerability records of the run, database by database.
pub open spec fn spec_vulns(dbs: Seq<Seq<AdvisoryView>>, lock: Seq<PackageView>) -> Seq<
    VulnerabilityView,
>
    decreases dbs.len(),
{
    if dbs.len() == 0 {
        Seq::empty()
    } else {
        spec_vulns(dbs.drop_last(), lock) + vulns_of_db(dbs.last(), lock)
    }
}

/// All warning records of the run, database by database.
pub open spec fn spec_warnings(dbs: Seq<Seq<AdvisoryView>>, lock: Seq<PackageView>) -> Seq<
    WarningView,
>
    decreases dbs.len(),
{
    if dbs.len() == 0 {
        Seq::empty()
    } else {
        spec_warnings(dbs.drop_last(), lock) + warns_of_db(dbs.last(), lock)
    }
}

impl Report {
    /// Match the lockfile against every loaded database. A pure function of
    /// its inputs: every advisory whose package name equals a lockfile
    /// package's name and whose ranges leave that package's version neither
    /// patched nor unaffected yields one record, a vulnerability or a
    /// warning by the advisory's kind. When `serialize_reports` is set, one
    /// raw blob per database is retained for audit-compatible replay.
    pub fn generate(advisory_dbs: &DbSet, lockfile: &PrunedLockfile, serialize_reports: bool) -> (r:
        Report)
        ensures
            r@.vulnerabilities == spec_vulns(advisory_dbs@, lockfile@),
            r@.warnings == spec_warnings(advisory_dbs@, lockfile@),
            r@.serialized.len() == if serialize_reports {
                advisory_dbs@.len()
            } else {
                0
            },
    {
        let ghost dbsv = advisory_dbs@;
        let ghost lockv = lockfile@;
        let mut vulns: Vec<Vulnerability> = Vec::new();
        let mut warns: Vec<Warning> = Vec::new();
        let mut blobs: Vec<serde_json::Value> = Vec::new();

        let nd = advisory_dbs.dbs.len();
        let mut d: usize = 0;
        while d < nd
            invariant
                dbsv == advisory_dbs@,
                lockv == lockfile@,
                nd == dbsv.len(),
                d <= nd,
                vulns@.map_values(|v: Vulnerability| v@) == spec_vulns(dbsv.take(d as int), lockv),
                warns@.map_values(|w: Warning| w@) == spec_warnings(dbsv.take(d as int), lockv),
                blobs@.len() == if serialize_reports {
                    d as int
                } else {
                    0
                },
            decreases nd - d,
        {
            let ghost advsv = dbsv[d as int];
            proof {
                assert(advsv == advisory_dbs.dbs@[d as int]@);
            }
            let mut ids: Vec<String> = Vec::new();
            let np = lockfile.packages.len();
            let mut p: usize = 0;
            while p < np
                invariant
                    dbsv == advisory_dbs@,
                    lockv == lockfile@,
                    d < dbsv.len(),
                    advsv == dbsv[d as int],
                    np == lockv.len(),
                    p <= np,
                    vulns@.map_values(|v: Vulnerability| v@) == spec_vulns(
                        dbsv.take(d as int),
                        lockv,
                    ) + vulns_of_db(advsv, lockv.take(p as int)),
                    warns@.map_values(|w: Warning| w@) == spec_warnings(
                        dbsv.take(d as int),
                        lockv,
                    ) + warns_of_db(advsv, lockv.take(p as int)),
                decreases np - p,
            {
                let ghost pkgv = lockv[p as int];
                proof {
                    assert(pkgv == lockfile.packages@[p as int]@);
                }
                let pkg = &lockfile.packages[p];
                let na = advisory_dbs.dbs[d].advisories.len();
                let mut a: usize = 0;
                while a < na
                    invariant
                        dbsv == advisory_dbs@,
                        lockv == lockfile@,
                        d < dbsv.len(),
                        p < lockv.len(),
                        advsv == dbsv[d as int],
                        pkgv == lockv[p as int],
                        pkg@ == pkgv,
                        na == advsv.len(),
                        a <= na,
                        vulns@.map_values(|v: Vulnerability| v@) == spec_vulns(
                            dbsv.take(d as int),
                            lockv,
                        ) + vulns_of_db(advsv, lockv.take(p as int)) + vulns_of_pkg(
                            advsv.take(a as int),
                            pkgv,
                        ),
                        warns@.map_values(|w: Warning| w@) == spec_warnings(
                            dbsv.take(d as int),
                            lockv,
                        ) + warns_of_db(advsv, lockv.take(p as int)) + warns_of_pkg(
                            advsv.take(a as int),
                            pkgv,
                        ),
                    decreases na - a,
                {
                    let ghost advv = advsv[a as int];
                    proof {
                        assert(dbsv[d as int] == advisory_dbs.dbs@[d as int]@);
                        assert(advisory_dbs.dbs@[d as int]@[a as int] == advisory_dbs.dbs@[d as int].advisories@[a as int]@);
                        assert(advv == advisory_dbs.dbs@[d as int].advisories@[a as int]@);
                        assert(advsv.take((a + 1) as int).drop_last() =~= advsv.take(a as int));
                        assert(advsv.take((a + 1) as int).last() == advv);
                    }
                    let adv = &advisory_dbs.dbs[d].advisories[a];
                    let name_matches = adv.metadata.package == pkg.name;
                    let vulnerable = name_matches && !any_pred_matches(
                        &adv.versions.patched,
                        &pkg.version,
                    ) && !any_pred_matches(&adv.versions.unaffected, &pkg.version);
                    if vulnerable {
                        proof {
                            assert(adv_matches_pkg(advv, pkgv));
                        }
                        match adv.metadata.kind {
                            AdvisoryKind::Vulnerability => {
                                let rec = Vulnerability {
                                    package: pkg.dup(),
                                    advisory: adv.metadata.dup(),
                                    versions: adv.versions.dup(),
                                };
                                proof {
                                    assert(rec@ =~= (VulnerabilityView {
                                        package: pkgv,
                                        advisory: advv.metadata,
                                        versions: advv.versions,
                                    }));
                                }
                                let ghost vpre = vulns@;
                                let ghost recv = rec@;
                                vulns.push(rec);
                                proof {
                                    assert(vulns_of_pkg(advsv.take((a + 1) as int), pkgv)
                                        == vulns_of_pkg(advsv.take(a as int), pkgv).push(recv));
                                    assert(vulns@ == vpre.push(vulns@[vpre.len() as int]));
                                    assert(vulns@.map_values(|v: Vulnerability| v@) =~= vpre.map_values(
                                        |v: Vulnerability| v@,
                                    ).push(recv));
                                    assert(spec_vulns(dbsv.take(d as int), lockv) + vulns_of_db(
                                        advsv,
                                        lockv.take(p as int),
                                    ) + vulns_of_pkg(advsv.take((a + 1) as int), pkgv) =~= (spec_vulns(
                                        dbsv.take(d as int),
                                        lockv,
                                    ) + vulns_of_db(advsv, lockv.take(p as int)) + vulns_of_pkg(
                                        advsv.take(a as int),
                                        pkgv,
                                    )).push(recv));
                                    assert(vulns@.map_values(|v: Vulnerability| v@) == spec_vulns(
                                        dbsv.take(d as int),
                                        lockv,
                                    ) + vulns_of_db(advsv, lockv.take(p as int)) + vulns_of_pkg(
                                        advsv.take((a + 1) as int),
                                        pkgv,
                                    ));
                                    assert(warns@.map_values(|w: Warning| w@) =~~= spec_warnings(
                                        dbsv.take(d as int),
                                        lockv,
                                    ) + warns_of_db(advsv, lockv.take(p as int)) + warns_of_pkg(
                                        advsv.take((a + 1) as int),
                                        pkgv,
                                    ));
                                }
                            },
                            _ => {
                                let rec = Warning {
                                    package: pkg.dup(),
                                    advisory: Some(adv.metadata.dup()),
                                    versions: Some(adv.versions.dup()),
                                };
                                proof {
                                    assert(rec@ =~= (WarningView {
                                        package: pkgv,
                                        advisory: Some(advv.metadata),
                                        versions: Some(advv.versions),
                                    }));
                                }
                                let ghost wpre = warns@;
                                let ghost recv = rec@;
                                warns.push(rec);
                                proof {
                                    assert(warns_of_pkg(advsv.take((a + 1) as int), pkgv)
                                        == warns_of_pkg(advsv.take(a as int), pkgv).push(recv));
                                    assert(warns@ == wpre.push(warns@[wpre.len() as int]));
                                    assert(warns@.map_values(|w: Warning| w@) =~= wpre.map_values(
                                        |w: Warning| w@,
                                    ).push(recv));
                                    assert(spec_warnings(dbsv.take(d as int), lockv) + warns_of_db(
                                        advsv,
                                        lockv.take(p as int),
                                    ) + warns_of_pkg(advsv.take((a + 1) as int), pkgv) =~= (spec_warnings(
                                        dbsv.take(d as int),
                                        lockv,
                                    ) + warns_of_db(advsv, lockv.take(p as int)) + warns_of_pkg(
                                        advsv.take(a as int),
                                        pkgv,
                                    )).push(recv));
                                    assert(warns@.map_values(|w: Warning| w@) == spec_warnings(
                                        dbsv.take(d as int),
                                        lockv,
                                    ) + warns_of_db(advsv, lockv.take(p as int)) + warns_of_pkg(
                                        advsv.take((a + 1) as int),
                                        pkgv,
                                    ));
                                    assert(vulns@.map_values(|v: Vulnerability| v@) == spec_vulns(
                                        dbsv.take(d as int),
                                        lockv,
                                    ) + vulns_of_db(advsv, lockv.take(p as int)) + vulns_of_pkg(
                                        advsv.take((a + 1) as int),
                                        pkgv,
                                    ));
                                }
                            },
                        }
                        if serialize_reports {
                            ids.push(adv.metadata.id.clone());
                        }
                    } else {
                        proof {
                            assert(!adv_matches_pkg(advv, pkgv));
                            assert(vulns@.map_values(|v: Vulnerability| v@) =~= spec_vulns(
                                dbsv.take(d as int),
                                lockv,
                            ) + vulns_of_db(advsv, lockv.take(p as int)) + vulns_of_pkg(
                                advsv.take((a + 1) as int),
                                pkgv,
                            ));
                            assert(warns@.map_values(|w: Warning| w@) =~= spec_warnings(
                                dbsv.take(d as int),
                                lockv,
                            ) + warns_of_db(advsv, lockv.take(p as int)) + warns_of_pkg(
                                advsv.take((a + 1) as int),
                                pkgv,
                            ));
                        }
                    }
                    a += 1;
                }
                proof {
                    assert(advsv.take(na as int) =~= advsv);
                    assert(lockv.take((p + 1) as int).drop_last() =~= lockv.take(p as int));
                    assert(lockv.take((p + 1) as int).last() == pkgv);
                    assert(spec_vulns(dbsv.take(d as int), lockv) + vulns_of_db(
                        advsv,
                        lockv.take((p + 1) as int),
                    ) =~= spec_vulns(dbsv.take(d as int), lockv) + vulns_of_db(
                        advsv,
                        lockv.take(p as int),
                    ) + vulns_of_pkg(advsv, pkgv));
                    assert(spec_warnings(dbsv.take(d as int), lockv) + warns_of_db(
                        advsv,
                        lockv.take((p + 1) as int),
                    ) =~= spec_warnings(dbsv.take(d as int), lockv) + warns_of_db(
                        advsv,
                        lockv.take(p as int),
                    ) + warns_of_pkg(advsv, pkgv));
                }
                p += 1;
            }
            if serialize_reports {
                blobs.push(blob_from_ids(ids));
            }
            proof {
                assert(lockv.take(np as int) =~= lockv);
                assert(dbsv.take((d + 1) as int).drop_last() =~= dbsv.take(d as int));
                assert(dbsv.take((d + 1) as int).last() == advsv);
                assert(spec_vulns(dbsv.take((d + 1) as int), lockv) =~= spec_vulns(
                    dbsv.take(d as int),
                    lockv,
                ) + vulns_of_db(advsv, lockv));
                assert(spec_warnings(dbsv.take((d + 1) as int), lockv) =~= spec_warnings(
                    dbsv.take(d as int),
                    lockv,
                ) + warns_of_db(advsv, lockv));
            }
            d += 1;
        }
        proof {
            assert(dbsv.take(nd as int) =~= dbsv);
        }
        Report { vulnerabilities: vulns, warnings: warns, serialized_reports: blobs }
    }
}

} // verus!
