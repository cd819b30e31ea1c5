use vstd::prelude::*;
use crate::advisory::{DbSet, Metadata, MetadataView, spec_has_advisory, Versions, VersionsView};
use crate::bits::{bit_contents, bits_get, bits_repeat, bits_set};
use crate::cfg::{has_ignore, ignore_ids_distinct, ignore_index, IgnoreEntryView, LintLevel, ValidConfigView};
use crate::diag::{CheckCtx, DiagnosticView, ErrorSink};
use crate::package::{graph_index, graph_resolves, krate_for_pkg, krates_distinct, pkg_id_eq, Package, PackageView};
use crate::report::{Report, ReportView, VulnerabilityView, WarningView};
use crate::version::{pred_matches_triple, Predicate, VersionView};
use crate::yank::FetchError;

verus! {

/// A consumer of raw serialized report blobs, one call per blob.
pub trait AuditReporter {
    fn report(&mut self, report: serde_json::Value);
}

/// For when you just want to satisfy `AuditReporter` without doing anything.
pub struct NoneReporter;

impl AuditReporter for NoneReporter {
    fn report(&mut self, _report: serde_json::Value) {
    }
}

/// A finding the engine reconciles against the package graph: the package, the
/// advisory that names it, and the advisory's declared ranges where the
/// finding is version-scoped.
pub struct Finding {
    pub package: Package,
    pub advisory: Metadata,
    pub versions: Option<Versions>,
}

/// The mathematical value of a [`Finding`].
#[verifier::ext_equal]
pub struct FindingView {
    pub package: PackageView,
    pub advisory: MetadataView,
    pub versions: Option<VersionsView>,
}

impl View for Finding {
    type V = FindingView;

    open spec fn view(&self) -> FindingView {
        FindingView {
            package: self.package@,
            advisory: self.advisory@,
            versions: match &self.versions {
                Some(v) => Some(v@),
                None => None,
            },
        }
    }
}

/// Every vulnerability of the report, as a finding.
pub open spec fn vuln_findings(vs: Seq<VulnerabilityView>) -> Seq<FindingView>
    decreases vs.len(),
{
    if vs.len() == 0 {
        Seq::empty()
    } else {
        vuln_findings(vs.drop_last()).push(
            FindingView {
                package: vs.last().package,
                advisory: vs.last().advisory,
                versions: Some(vs.last().versions),
            },
        )
    }
}

/// Every warning of the report that carries an advisory, as a finding;
/// warnings without one are not the engine's to report.
pub open spec fn warning_findings(ws: Seq<WarningView>) -> Seq<FindingView>
    decreases ws.len(),
{
    if ws.len() == 0 {
        Seq::empty()
    } else {
        let rest = warning_findings(ws.drop_last());
        match ws.last().advisory {
            Some(a) => rest.push(
                FindingView { package: ws.last().package, advisory: a, versions: ws.last().versions },
            ),
            None => rest,
        }
    }
}

/// The findings of a report, vulnerabilities first, then warnings.
pub open spec fn spec_findings(r: ReportView) -> Seq<FindingView> {
    vuln_findings(r.vulnerabilities) + warning_findings(r.warnings)
}

/// The last predicate of the list, in declaration order, that the bare triple
/// satisfies: ranges are declared ascending, so the walk runs in reverse and
/// the first hit is the closest match.
pub open spec fn rev_first_match(preds: Seq<Predicate>, major: u64, minor: u64, patch: u64) -> Option<
    Predicate,
>
    decreases preds.len(),
{
    if preds.len() == 0 {
        None
    } else if pred_matches_triple(preds.last(), major, minor, patch) {
        Some(preds.last())
    } else {
        rev_first_match(preds.drop_last(), major, minor, patch)
    }
}

/// The range the pre-release workaround would skip on: the version with its
/// pre-release label stripped is held against the patched ranges in reverse
/// declaration order, then against the unaffected ranges the same way; the
/// first match wins.
pub open spec fn spec_skip_range(v: VersionView, ranges: VersionsView) -> Option<Predicate> {
    match rev_first_match(ranges.patched, v.major, v.minor, v.patch) {
        Some(p) => Some(p),
        None => rev_first_match(ranges.unaffected, v.major, v.minor, v.patch),
    }
}

/// The range a finding is skipped on, if any: only version-scoped findings
/// whose package version carries a pre-release label are candidates.
pub open spec fn finding_skip(f: FindingView) -> Option<Predicate> {
    match f.versions {
        Some(ranges) => if f.package.version.pre.len() > 0 {
            spec_skip_range(f.package.version, ranges)
        } else {
            None
        },
        None => None,
    }
}

/// The one diagnostic a finding yields: the pre-release skip notice where the
/// workaround fires, the advisory diagnostic otherwise, carrying the position
/// of the configured ignore entry for the advisory if there is one.
pub open spec fn finding_diag(
    krates: Seq<PackageView>,
    cfg: ValidConfigView,
    f: FindingView,
) -> DiagnosticView {
    let i = graph_index(krates, f.package);
    match finding_skip(f) {
        Some(p) => DiagnosticView::PrereleaseSkipped {
            krate_index: i,
            advisory_id: f.advisory.id,
            range: p,
        },
        None => DiagnosticView::Advisory {
            krate_index: i,
            advisory_id: f.advisory.id,
            ignore_index: if has_ignore(cfg.ignore, f.advisory.id) {
                Some(ignore_index(cfg.ignore, f.advisory.id))
            } else {
                None
            },
        },
    }
}

/// The diagnostics of a run's findings, in finding order.
pub open spec fn finding_diags(
    krates: Seq<PackageView>,
    cfg: ValidConfigView,
    fs: Seq<FindingView>,
) -> Seq<DiagnosticView>
    decreases fs.len(),
{
    if fs.len() == 0 {
        Seq::empty()
    } else {
        finding_diags(krates, cfg, fs.drop_last()).push(finding_diag(krates, cfg, fs.last()))
    }
}

/// Does every finding's package resolve to a graph node?
pub open spec fn all_findings_resolve(krates: Seq<PackageView>, fs: Seq<FindingView>) -> bool {
    forall|k: int| 0 <= k < fs.len() ==> graph_resolves(krates, fs[k].package)
}

/// Is the bit at `j` set once the run is over: did some finding that was not
/// skipped carry the advisory identifier the entry at `j` is configured for?
pub open spec fn spec_hit(cfg: ValidConfigView, fs: Seq<FindingView>, j: int) -> bool {
    exists|k: int|
        0 <= k < fs.len() && finding_skip(fs[k]) is None && fs[k].advisory.id
            == cfg.ignore[j].value
}

/// The ignore-hit bitset at the end of the run: one bit per configured ignore
/// entry, in entry order.
pub open spec fn spec_hits(cfg: ValidConfigView, fs: Seq<FindingView>) -> Seq<bool> {
    Seq::new(cfg.ignore.len(), |j: int| spec_hit(cfg, fs, j))
}

/// The withdrawal diagnostics, one per reported package, in report order.
pub open spec fn yank_diags(krates: Seq<PackageView>, ys: Seq<PackageView>) -> Seq<DiagnosticView>
    decreases ys.len(),
{
    if ys.len() == 0 {
        Seq::empty()
    } else {
        yank_diags(krates, ys.drop_last()).push(
            DiagnosticView::Yanked { krate_index: graph_index(krates, ys.last()) },
        )
    }
}

/// Does every reported withdrawn package resolve to a graph node?
pub open spec fn all_yanked_resolve(krates: Seq<PackageView>, ys: Seq<PackageView>) -> bool {
    forall|k: int| 0 <= k < ys.len() ==> graph_resolves(krates, ys[k])
}

/// What the oracle's outcome contributes: one withdrawal diagnostic per
/// reported package on success; on failure one index-failure diagnostic,
/// unless withdrawal findings are configured `Allow`, in which case the
/// failure is dropped.
pub open spec fn spec_yank_output(
    krates: Seq<PackageView>,
    cfg: ValidConfigView,
    yanked: Result<Seq<PackageView>, Seq<char>>,
) -> Seq<DiagnosticView> {
    match yanked {
        Ok(ys) => yank_diags(krates, ys),
        Err(m) => if cfg.yanked != LintLevel::Allow {
            seq![DiagnosticView::IndexFailure { message: m }]
        } else {
            Seq::empty()
        },
    }
}

/// One diagnostic per configured ignore entry whose identifier no loaded
/// database knows, in entry order.
pub open spec fn unknown_diags(
    dbs: Seq<Seq<crate::advisory::AdvisoryView>>,
    ignore: Seq<IgnoreEntryView>,
) -> Seq<DiagnosticView>
    decreases ignore.len(),
{
    if ignore.len() == 0 {
        Seq::empty()
    } else {
        unknown_diags(dbs, ignore.drop_last()) + if !spec_has_advisory(dbs, ignore.last().value) {
            seq![
                DiagnosticView::UnknownAdvisory {
                    ignore_index: ignore.len() - 1,
                    advisory_id: ignore.last().value,
                },
            ]
        } else {
            Seq::empty()
        }
    }
}

/// One diagnostic per configured ignore entry whose bit is still unset when
/// the run is over, in entry order.
pub open spec fn unused_diags(hits: Seq<bool>, ignore: Seq<IgnoreEntryView>) -> Seq<DiagnosticView>
    decreases ignore.len(),
{
    if ignore.len() == 0 || hits.len() != ignore.len() {
        Seq::empty()
    } else {
        unused_diags(hits.drop_last(), ignore.drop_last()) + if !hits.last() {
            seq![
                DiagnosticView::UnusedIgnore {
                    ignore_index: ignore.len() - 1,
                    advisory_id: ignore.last().value,
                },
            ]
        } else {
            Seq::empty()
        }
    }
}

/// The mathematical value of the oracle's outcome.
pub open spec fn yank_view(y: Result<Vec<Package>, FetchError>) -> Result<
    Seq<PackageView>,
    Seq<char>,
> {
    match y {
        Ok(v) => Ok(v@.map_values(|p: Package| p@)),
        Err(e) => Err(e@),
    }
}

/// The complete diagnostic stream of one run, in emission order: finding
/// diagnostics, then the oracle's contribution, then unknown ignore entries,
/// then unused ignore entries.
pub open spec fn spec_check_output(
    krates: Seq<PackageView>,
    cfg: ValidConfigView,
    dbs: Seq<Seq<crate::advisory::AdvisoryView>>,
    report: ReportView,
    yanked: Result<Seq<PackageView>, Seq<char>>,
) -> Seq<DiagnosticView> {
    finding_diags(krates, cfg, spec_findings(report)) + spec_yank_output(krates, cfg, yanked)
        + unknown_diags(dbs, cfg.ignore) + unused_diags(
        spec_hits(cfg, spec_findings(report)),
        cfg.ignore,
    )
}

/// Does every package the report or the oracle surfaced resolve to a graph
/// node? The engine owes its diagnostics exactly when this holds.
pub open spec fn spec_all_resolve(
    krates: Seq<PackageView>,
    report: ReportView,
    yanked: Result<Seq<PackageView>, Seq<char>>,
) -> bool {
    all_findings_resolve(krates, spec_findings(report)) && match yanked {
        Ok(ys) => all_yanked_resolve(krates, ys),
        Err(_) => true,
    }
}

/// The report or the oracle surfaced a package the graph does not contain:
/// the engine's inputs were mutually inconsistent. Not a user error and not
/// recoverable; the run aborts with no diagnostic emitted.
#[derive(Debug)]
pub struct FatalError {
    pub package: Package,
}

/// With distinct graph identities, a node that carries a package's identity
/// is the one index the package resolves to.
pub proof fn lemma_graph_index_unique(krates: Seq<PackageView>, p: PackageView, ix: int)
    requires
        krates_distinct(krates),
        0 <= ix < krates.len(),
        pkg_id_eq(krates[ix], p),
    ensures
        graph_resolves(krates, p),
        graph_index(krates, p) == ix,
{
    assert(graph_resolves(krates, p));
    let j = graph_index(krates, p);
    assert(0 <= j < krates.len() && pkg_id_eq(krates[j], p));
    if j != ix {
        assert(!pkg_id_eq(krates[ix], krates[j]));
        assert(false);
    }
}

/// With distinct ignore identifiers, an entry that carries an identifier is
/// the one entry the identifier resolves to.
pub proof fn lemma_ignore_index_unique(ignore: Seq<IgnoreEntryView>, id: Seq<char>, j: int)
    requires
        ignore_ids_distinct(ignore),
        0 <= j < ignore.len(),
        ignore[j].value == id,
    ensures
        has_ignore(ignore, id),
        ignore_index(ignore, id) == j,
{
    assert(has_ignore(ignore, id));
    let j2 = ignore_index(ignore, id);
    assert(0 <= j2 < ignore.len() && ignore[j2].value == id);
    if j2 != j {
        assert(ignore[j].value != ignore[j2].value);
        assert(false);
    }
}

/// How one more finding changes one bit of the ignore-hit bitset.
pub proof fn lemma_spec_hit_step(cfg: ValidConfigView, fs: Seq<FindingView>, k: int, j: int)
    requires
        0 <= k < fs.len(),
        0 <= j < cfg.ignore.len(),
    ensures
        spec_hit(cfg, fs.take(k + 1), j) <==> (spec_hit(cfg, fs.take(k), j) || (finding_skip(
            fs[k],
        ) is None && fs[k].advisory.id == cfg.ignore[j].value)),
{
    let pre = fs.take(k);
    let cur = fs.take(k + 1);
    assert(cur[k] == fs[k]);
    if spec_hit(cfg, pre, j) {
        let w = choose|w: int|
            0 <= w < pre.len() && (#[trigger] finding_skip(pre[w])) is None && pre[w].advisory.id
                == cfg.ignore[j].value;
        assert(cur[w] == pre[w]);
        assert(spec_hit(cfg, cur, j));
    }
    if finding_skip(fs[k]) is None && fs[k].advisory.id == cfg.ignore[j].value {
        assert(spec_hit(cfg, cur, j));
    }
    if spec_hit(cfg, cur, j) {
        let w = choose|w: int|
            0 <= w < cur.len() && (#[trigger] finding_skip(cur[w])) is None && cur[w].advisory.id
                == cfg.ignore[j].value;
        if w == k {
            assert(finding_skip(fs[k]) is None && fs[k].advisory.id == cfg.ignore[j].value);
        } else {
            assert(pre[w] == cur[w]);
            assert(spec_hit(cfg, pre, j));
        }
    }
}

/// The reverse walk over one predicate list.
fn rev_find_match(preds: &Vec<Predicate>, major: u64, minor: u64, patch: u64) -> (r: Option<
    Predicate,
>)
    ensures
        r == rev_first_match(preds@, major, minor, patch),
{
    let mut i: usize = preds.len();
    proof {
        assert(preds@.take(i as int) =~= preds@);
    }
    while i > 0
        invariant
            i <= preds@.len(),
            rev_first_match(preds@, major, minor, patch) == rev_first_match(
                preds@.take(i as int),
                major,
                minor,
                patch,
            ),
        decreases i,
    {
        i -= 1;
        proof {
            assert(preds@.take((i + 1) as int).drop_last() =~= preds@.take(i as int));
            assert(preds@.take((i + 1) as int).last() == preds@[i as int]);
        }
        if preds[i].matches_triple(major, minor, patch) {
            return Some(preds[i]);
        }
    }
    proof {
        assert(preds@.take(0) =~= Seq::<Predicate>::empty());
    }
    None
}

/// The range the pre-release workaround skips this finding on, if any.
fn find_skip(f: &Finding) -> (r: Option<Predicate>)
    ensures
        r == finding_skip(f@),
{
    match &f.versions {
        Some(ranges) => {
            if f.package.version.is_prerelease() {
                let stripped = f.package.version.strip_pre();
                match rev_find_match(&ranges.patched, stripped.major, stripped.minor, stripped.patch) {
                    Some(p) => Some(p),
                    None => rev_find_match(
                        &ranges.unaffected,
                        stripped.major,
                        stripped.minor,
                        stripped.patch,
                    ),
                }
            } else {
                None
            }
        },
        None => None,
    }
}

/// Reconcile every finding of the report and the oracle's outcome against the
/// package graph and push the run's diagnostics, in order: vulnerabilities,
/// then warnings, then withdrawn packages (or the one index-failure notice),
/// then unknown ignore entries, then unused ignore entries. Where a
/// version-scoped finding names a pre-release version that a declared range
/// matches once its label is stripped, the pre-release skip notice replaces
/// the advisory diagnostic. When a reporter is supplied, the report's raw
/// blobs are replayed to it afterwards, in order, none dropped.
///
/// A package the graph cannot resolve means the inputs disagree: the run
/// aborts with `Err` and the sink untouched.
#[verifier::rlimit(100)]
pub fn check<R: AuditReporter>(
    ctx: &CheckCtx,
    advisory_dbs: &DbSet,
    report: Report,
    yanked: Result<Vec<Package>, FetchError>,
    audit_compatible_reporter: Option<R>,
    sink: &mut ErrorSink,
) -> (r: Result<(), FatalError>)
    requires
        krates_distinct(ctx.krates@),
        ignore_ids_distinct(ctx.cfg@.ignore),
    ensures
        match r {
            Ok(_) => spec_all_resolve(ctx.krates@, report@, yank_view(yanked)) && final(sink)@
                == old(sink)@ + spec_check_output(
                ctx.krates@,
                ctx.cfg@,
                advisory_dbs@,
                report@,
                yank_view(yanked),
            ),
            Err(e) => !spec_all_resolve(ctx.krates@, report@, yank_view(yanked))
                && !graph_resolves(ctx.krates@, e.package@) && final(sink)@ == old(sink)@ && {
                ||| exists|k: int|
                    0 <= k < spec_findings(report@).len() && spec_findings(report@)[k].package
                        == e.package@
                ||| (yank_view(yanked) is Ok && yank_view(yanked)->Ok_0.contains(e.package@))
            },
        },
{
    let ghost kratesv = ctx.krates@;
    let ghost cfgv = ctx.cfg@;
    let ghost dbsv = advisory_dbs@;
    let ghost reportv = report@;
    let ghost fsv = spec_findings(report@);
    let ghost yankedv = yank_view(yanked);

    // Gather the findings: vulnerabilities first, then the warnings that
    // carry an advisory.
    let mut findings: Vec<Finding> = Vec::new();
    let nv = report.vulnerabilities.len();
    let mut k: usize = 0;
    while k < nv
        invariant
            reportv == report@,
            nv == reportv.vulnerabilities.len(),
            k <= nv,
            findings@.map_values(|f: Finding| f@) == vuln_findings(
                reportv.vulnerabilities.take(k as int),
            ),
        decreases nv - k,
    {
        let ghost vv = reportv.vulnerabilities[k as int];
        proof {
            assert(vv == report.vulnerabilities@[k as int]@);
            assert(reportv.vulnerabilities.take((k + 1) as int).drop_last()
                =~= reportv.vulnerabilities.take(k as int));
            assert(reportv.vulnerabilities.take((k + 1) as int).last() == vv);
        }
        let v = &report.vulnerabilities[k];
        let f = Finding {
            package: v.package.dup(),
            advisory: v.advisory.dup(),
            versions: Some(v.versions.dup()),
        };
        proof {
            assert(f@ =~= (FindingView {
                package: vv.package,
                advisory: vv.advisory,
                versions: Some(vv.versions),
            }));
        }
        findings.push(f);
        proof {
            assert(findings@.map_values(|f: Finding| f@) =~= vuln_findings(
                reportv.vulnerabilities.take((k + 1) as int),
            ));
        }
        k += 1;
    }
    proof {
        assert(reportv.vulnerabilities.take(nv as int) =~= reportv.vulnerabilities);
    }
    let nw = report.warnings.len();
    let mut k: usize = 0;
    while k < nw
        invariant
            reportv == report@,
            nw == reportv.warnings.len(),
            k <= nw,
            findings@.map_values(|f: Finding| f@) == vuln_findings(reportv.vulnerabilities)
                + warning_findings(reportv.warnings.take(k as int)),
        decreases nw - k,
    {
        let ghost wv = reportv.warnings[k as int];
        proof {
            assert(wv == report.warnings@[k as int]@);
            assert(reportv.warnings.take((k + 1) as int).drop_last() =~= reportv.warnings.take(
                k as int,
            ));
            assert(reportv.warnings.take((k + 1) as int).last() == wv);
        }
        let w = &report.warnings[k];
        match &w.advisory {
            Some(a) => {
                let f = Finding {
                    package: w.package.dup(),
                    advisory: a.dup(),
                    versions: match &w.versions {
                        Some(v) => Some(v.dup()),
                        None => None,
                    },
                };
                proof {
                    assert(f@ =~= (FindingView {
                        package: wv.package,
                        advisory: wv.advisory->Some_0,
                        versions: wv.versions,
                    }));
                }
                let ghost fvv = f@;
                let ghost fpre = findings@;
                findings.push(f);
                proof {
                    assert(warning_findings(reportv.warnings.take((k + 1) as int))
                        == warning_findings(reportv.warnings.take(k as int)).push(fvv));
                    assert(findings@ == fpre.push(findings@[fpre.len() as int]));
                    assert(findings@.map_values(|f: Finding| f@) =~= fpre.map_values(
                        |f: Finding| f@,
                    ).push(fvv));
                    assert(vuln_findings(reportv.vulnerabilities) + warning_findings(
                        reportv.warnings.take((k + 1) as int),
                    ) =~= (vuln_findings(reportv.vulnerabilities) + warning_findings(
                        reportv.warnings.take(k as int),
                    )).push(fvv));
                    assert(findings@.map_values(|f: Finding| f@) == vuln_findings(
                        reportv.vulnerabilities,
                    ) + warning_findings(reportv.warnings.take((k + 1) as int)));
                }
            },
            None => {
                proof {
                    assert(findings@.map_values(|f: Finding| f@) =~= vuln_findings(
                        reportv.vulnerabilities,
                    ) + warning_findings(reportv.warnings.take((k + 1) as int)));
                }
            },
        }
        k += 1;
    }
    proof {
        assert(reportv.warnings.take(nw as int) =~= reportv.warnings);
        assert(findings@.map_values(|f: Finding| f@) == fsv);
    }

    // Resolve every finding against the graph before anything is emitted:
    // failure here is the fatal path, and the sink stays untouched.
    let nf = findings.len();
    let mut indices: Vec<usize> = Vec::new();
    let mut k: usize = 0;
    while k < nf
        invariant
            kratesv == ctx.krates@,
            reportv == report@,
            fsv == spec_findings(reportv),
            yankedv == yank_view(yanked),
            findings@.map_values(|f: Finding| f@) == fsv,
            nf == fsv.len(),
            k <= nf,
            indices@.len() == k,
            forall|j: int|
                0 <= j < k ==> indices@[j] < kratesv.len() && pkg_id_eq(
                    kratesv[indices@[j] as int],
                    fsv[j].package,
                ),
        decreases nf - k,
    {
        proof {
            assert(findings@.map_values(|f: Finding| f@)[k as int] == findings@[k as int]@);
        }
        match krate_for_pkg(&ctx.krates, &findings[k].package) {
            Some(i) => {
                indices.push(i);
                proof {
                    assert(indices@[k as int] == i);
                    assert(pkg_id_eq(kratesv[i as int], fsv[k as int].package));
                }
            },
            None => {
                proof {
                    assert(!graph_resolves(kratesv, fsv[k as int].package));
                    assert(!all_findings_resolve(kratesv, fsv));
                    assert(!spec_all_resolve(kratesv, reportv, yankedv));
                    assert(spec_findings(report@)[k as int].package
                        == findings@[k as int]@.package);
                }
                return Err(FatalError { package: findings[k].package.dup() });
            },
        }
        k += 1;
    }

    // Resolve the oracle's packages the same way.
    let mut yindices: Vec<usize> = Vec::new();
    match &yanked {
        Ok(ys) => {
            let ghost ysv = yankedv->Ok_0;
            proof {
                assert(ysv == ys@.map_values(|p: Package| p@));
            }
            let ny = ys.len();
            let mut k: usize = 0;
            while k < ny
                invariant
                    kratesv == ctx.krates@,
                    reportv == report@,
                    fsv == spec_findings(reportv),
                    yankedv == yank_view(yanked),
                    yankedv is Ok,
                    ysv == yankedv->Ok_0,
                    ysv == ys@.map_values(|p: Package| p@),
                    ny == ysv.len(),
                    k <= ny,
                    yindices@.len() == k,
                    forall|j: int| #![trigger yindices@[j]]
                        0 <= j < k ==> yindices@[j] < kratesv.len() && pkg_id_eq(
                            kratesv[yindices@[j] as int],
                            ysv[j],
                        ),
                decreases ny - k,
            {
                proof {
                    assert(ysv[k as int] == ys@[k as int]@);
                }
                let ghost ypre = yindices@;
                match krate_for_pkg(&ctx.krates, &ys[k]) {
                    Some(i) => {
                        yindices.push(i);
                        proof {
                            assert(i < kratesv.len());
                            assert(pkg_id_eq(kratesv[i as int], ys@[k as int]@));
                            assert(pkg_id_eq(kratesv[i as int], ysv[k as int]));
                            assert(yindices@ == ypre.push(i));
                            assert(yindices@[k as int] == i);
                            assert forall|j: int| #![trigger yindices@[j]]
                                0 <= j < k + 1 implies yindices@[j] < kratesv.len() && pkg_id_eq(
                                kratesv[yindices@[j] as int],
                                ysv[j],
                            ) by {
                                if j == k as int {
                                    assert(yindices@[j] == i);
                                    assert(pkg_id_eq(kratesv[i as int], ysv[k as int]));
                                } else {
                                    assert(yindices@[j] == ypre[j]);
                                }
                            }
                        }
                    },
                    None => {
                        proof {
                            assert(!graph_resolves(kratesv, ysv[k as int]));
                            assert(ysv.contains(ysv[k as int]));
                            assert(!all_yanked_resolve(kratesv, ysv));
                            assert(!spec_all_resolve(kratesv, reportv, yankedv));
                        }
                        return Err(FatalError { package: ys[k].dup() });
                    },
                }
                k += 1;
            }
        },
        Err(_) => {},
    }
    proof {
        assert(spec_all_resolve(kratesv, reportv, yankedv)) by {
            assert forall|k: int| 0 <= k < fsv.len() implies graph_resolves(
                kratesv,
                fsv[k].package,
            ) by {
                assert(pkg_id_eq(kratesv[indices@[k] as int], fsv[k].package));
            }
            if yankedv is Ok {
                let ysv = yankedv->Ok_0;
                assert forall|k: int| 0 <= k < ysv.len() implies graph_resolves(
                    kratesv,
                    ysv[k],
                ) by {
                    assert(pkg_id_eq(kratesv[yindices@[k] as int], ysv[k]));
                }
            }
        }
    }

    // The ignore-hit bitset: one bit per configured entry, all false.
    let mut ignore_hits = bits_repeat(false, ctx.cfg.ignore.len());
    proof {
        assert(bit_contents(ignore_hits) =~= spec_hits(cfgv, fsv.take(0)));
    }

    // Emit one diagnostic per finding, recording ignore hits.
    let ghost sink0 = sink@;
    let mut k: usize = 0;
    while k < nf
        invariant
            kratesv == ctx.krates@,
            cfgv == ctx.cfg@,
            krates_distinct(kratesv),
            ignore_ids_distinct(cfgv.ignore),
            findings@.map_values(|f: Finding| f@) == fsv,
            nf == fsv.len(),
            k <= nf,
            indices@.len() == nf,
            forall|j: int|
                0 <= j < nf ==> indices@[j] < kratesv.len() && pkg_id_eq(
                    kratesv[indices@[j] as int],
                    fsv[j].package,
                ),
            sink@ == sink0 + finding_diags(kratesv, cfgv, fsv.take(k as int)),
            bit_contents(ignore_hits) == spec_hits(cfgv, fsv.take(k as int)),
        decreases nf - k,
    {
        let ghost fv = fsv[k as int];
        proof {
            assert(findings@.map_values(|f: Finding| f@)[k as int] == findings@[k as int]@);
            assert(fsv.take((k + 1) as int).drop_last() =~= fsv.take(k as int));
            assert(fsv.take((k + 1) as int).last() == fv);
            lemma_graph_index_unique(kratesv, fv.package, indices@[k as int] as int);
        }
        let f = &findings[k];
        let i = indices[k];
        match find_skip(f) {
            Some(range) => {
                let d = ctx.diag_for_prerelease_skipped(i, &f.advisory, range);
                sink.push(d);
                proof {
                    assert(finding_diag(kratesv, cfgv, fv) == (DiagnosticView::PrereleaseSkipped {
                        krate_index: i as int,
                        advisory_id: fv.advisory.id,
                        range,
                    }));
                    assert(sink@ =~= sink0 + finding_diags(kratesv, cfgv, fsv.take((k + 1) as int)));
                    assert(bit_contents(ignore_hits) =~= spec_hits(cfgv, fsv.take((k + 1) as int)));
                }
            },
            None => {
                let (d, hit) = ctx.diag_for_advisory(i, &f.advisory);
                sink.push(d);
                proof {
                    match hit {
                        Some(j) => {
                            lemma_ignore_index_unique(cfgv.ignore, fv.advisory.id, j as int);
                        },
                        None => {},
                    }
                    assert(finding_diag(kratesv, cfgv, fv) == (DiagnosticView::Advisory {
                        krate_index: i as int,
                        advisory_id: fv.advisory.id,
                        ignore_index: match hit {
                            Some(j) => Some(j as int),
                            None => None,
                        },
                    }));
                    assert(sink@ =~= sink0 + finding_diags(kratesv, cfgv, fsv.take((k + 1) as int)));
                }
                match hit {
                    Some(j) => {
                        bits_set(&mut ignore_hits, j, true);
                        proof {
                            assert forall|j2: int|
                                0 <= j2 < cfgv.ignore.len() implies bit_contents(ignore_hits)[j2]
                                == spec_hit(cfgv, fsv.take((k + 1) as int), j2) by {
                                lemma_spec_hit_step(cfgv, fsv, k as int, j2);
                                if j2 == j as int {
                                    assert(finding_skip(fv) is None);
                                    assert(fv.advisory.id == cfgv.ignore[j2].value);
                                } else {
                                    assert(cfgv.ignore[j2].value != cfgv.ignore[j as int].value);
                                }
                            }
                            assert(bit_contents(ignore_hits) =~= spec_hits(
                                cfgv,
                                fsv.take((k + 1) as int),
                            ));
                        }
                    },
                    None => {
                        proof {
                            assert forall|j2: int|
                                0 <= j2 < cfgv.ignore.len() implies spec_hit(
                                cfgv,
                                fsv.take((k + 1) as int),
                                j2,
                            ) == spec_hit(cfgv, fsv.take(k as int), j2) by {
                                lemma_spec_hit_step(cfgv, fsv, k as int, j2);
                                if fv.advisory.id == cfgv.ignore[j2].value {
                                    assert(has_ignore(cfgv.ignore, fv.advisory.id));
                                    assert(false);
                                }
                            }
                            assert(bit_contents(ignore_hits) =~= spec_hits(
                                cfgv,
                                fsv.take((k + 1) as int),
                            ));
                        }
                    },
                }
            },
        }
        k += 1;
    }
    proof {
        assert(fsv.take(nf as int) =~= fsv);
    }

    // The oracle's contribution: withdrawal diagnostics on success, the
    // severity-gated failure notice otherwise.
    match yanked {
        Ok(ys) => {
            let ghost ysv = yankedv->Ok_0;
            proof {
                assert(ysv == ys@.map_values(|p: Package| p@));
            }
            let ny = ys.len();
            let mut k: usize = 0;
            while k < ny
                invariant
                    kratesv == ctx.krates@,
                    cfgv == ctx.cfg@,
                    krates_distinct(kratesv),
                    ysv == ys@.map_values(|p: Package| p@),
                    ny == ysv.len(),
                    k <= ny,
                    yindices@.len() == ny,
                    forall|j: int|
                        0 <= j < ny ==> yindices@[j] < kratesv.len() && pkg_id_eq(
                            kratesv[yindices@[j] as int],
                            ysv[j],
                        ),
                    sink@ == sink0 + finding_diags(kratesv, cfgv, fsv) + yank_diags(
                        kratesv,
                        ysv.take(k as int),
                    ),
                decreases ny - k,
            {
                proof {
                    assert(ysv.take((k + 1) as int).drop_last() =~= ysv.take(k as int));
                    assert(ysv.take((k + 1) as int).last() == ysv[k as int]);
                    lemma_graph_index_unique(kratesv, ysv[k as int], yindices@[k as int] as int);
                }
                let d = ctx.diag_for_yanked(yindices[k]);
                sink.push(d);
                proof {
                    assert(sink@ =~= sink0 + finding_diags(kratesv, cfgv, fsv) + yank_diags(
                        kratesv,
                        ysv.take((k + 1) as int),
                    ));
                }
                k += 1;
            }
            proof {
                assert(ysv.take(ny as int) =~= ysv);
                assert(sink@ == sink0 + finding_diags(kratesv, cfgv, fsv) + spec_yank_output(
                    kratesv,
                    cfgv,
                    yankedv,
                ));
            }
        },
        Err(e) => {
            if ctx.cfg.yanked == LintLevel::Allow {
                proof {
                    assert(spec_yank_output(kratesv, cfgv, yankedv) =~= Seq::<
                        DiagnosticView,
                    >::empty());
                    assert(sink@ =~= sink0 + finding_diags(kratesv, cfgv, fsv) + spec_yank_output(
                        kratesv,
                        cfgv,
                        yankedv,
                    ));
                }
            } else {
                let d = ctx.diag_for_index_failure(e);
                sink.push(d);
                proof {
                    assert(sink@ =~= sink0 + finding_diags(kratesv, cfgv, fsv) + spec_yank_output(
                        kratesv,
                        cfgv,
                        yankedv,
                    ));
                }
            }
        },
    }

    // Ignore entries that name an advisory no database knows.
    let ni = ctx.cfg.ignore.len();
    let mut j: usize = 0;
    while j < ni
        invariant
            cfgv == ctx.cfg@,
            dbsv == advisory_dbs@,
            ni == cfgv.ignore.len(),
            j <= ni,
            sink@ == sink0 + finding_diags(kratesv, cfgv, fsv) + spec_yank_output(
                kratesv,
                cfgv,
                yankedv,
            ) + unknown_diags(dbsv, cfgv.ignore.take(j as int)),
        decreases ni - j,
    {
        proof {
            assert(cfgv.ignore[j as int] == ctx.cfg.ignore@[j as int]@);
            assert(cfgv.ignore.take((j + 1) as int).drop_last() =~= cfgv.ignore.take(j as int));
            assert(cfgv.ignore.take((j + 1) as int).last() == cfgv.ignore[j as int]);
        }
        if !advisory_dbs.has_advisory(&ctx.cfg.ignore[j].value) {
            let d = ctx.diag_for_unknown_advisory(j, &ctx.cfg.ignore[j]);
            sink.push(d);
            proof {
                assert(sink@ =~= sink0 + finding_diags(kratesv, cfgv, fsv) + spec_yank_output(
                    kratesv,
                    cfgv,
                    yankedv,
                ) + unknown_diags(dbsv, cfgv.ignore.take((j + 1) as int)));
            }
        } else {
            proof {
                assert(sink@ =~= sink0 + finding_diags(kratesv, cfgv, fsv) + spec_yank_output(
                    kratesv,
                    cfgv,
                    yankedv,
                ) + unknown_diags(dbsv, cfgv.ignore.take((j + 1) as int)));
            }
        }
        j += 1;
    }
    proof {
        assert(cfgv.ignore.take(ni as int) =~= cfgv.ignore);
    }

    // Ignore entries no finding of this run matched.
    let ghost hitsv = spec_hits(cfgv, fsv);
    let mut j: usize = 0;
    while j < ni
        invariant
            cfgv == ctx.cfg@,
            ni == cfgv.ignore.len(),
            j <= ni,
            bit_contents(ignore_hits) == hitsv,
            hitsv.len() == ni,
            sink@ == sink0 + finding_diags(kratesv, cfgv, fsv) + spec_yank_output(
                kratesv,
                cfgv,
                yankedv,
            ) + unknown_diags(dbsv, cfgv.ignore) + unused_diags(
                hitsv.take(j as int),
                cfgv.ignore.take(j as int),
            ),
        decreases ni - j,
    {
        proof {
            assert(cfgv.ignore[j as int] == ctx.cfg.ignore@[j as int]@);
            assert(cfgv.ignore.take((j + 1) as int).drop_last() =~= cfgv.ignore.take(j as int));
            assert(cfgv.ignore.take((j + 1) as int).last() == cfgv.ignore[j as int]);
            assert(hitsv.take((j + 1) as int).drop_last() =~= hitsv.take(j as int));
            assert(hitsv.take((j + 1) as int).last() == hitsv[j as int]);
        }
        if !bits_get(&ignore_hits, j) {
            let d = ctx.diag_for_advisory_not_encountered(j, &ctx.cfg.ignore[j]);
            sink.push(d);
            proof {
                assert(sink@ =~= sink0 + finding_diags(kratesv, cfgv, fsv) + spec_yank_output(
                    kratesv,
                    cfgv,
                    yankedv,
                ) + unknown_diags(dbsv, cfgv.ignore) + unused_diags(
                    hitsv.take((j + 1) as int),
                    cfgv.ignore.take((j + 1) as int),
                ));
            }
        } else {
            proof {
                assert(sink@ =~= sink0 + finding_diags(kratesv, cfgv, fsv) + spec_yank_output(
                    kratesv,
                    cfgv,
                    yankedv,
                ) + unknown_diags(dbsv, cfgv.ignore) + unused_diags(
                    hitsv.take((j + 1) as int),
                    cfgv.ignore.take((j + 1) as int),
                ));
            }
        }
        j += 1;
    }
    proof {
        assert(cfgv.ignore.take(ni as int) =~= cfgv.ignore);
        assert(hitsv.take(ni as int) =~= hitsv);
        assert(sink@ =~= sink0 + spec_check_output(kratesv, cfgv, dbsv, reportv, yankedv));
    }

    // Replay the raw blobs to the audit-compatible consumer, in order.
    match audit_compatible_reporter {
        Some(mut reporter) => {
            let mut blobs = report.serialized_reports;
            while blobs.len() > 0
                invariant
                    sink@ == sink0 + spec_check_output(kratesv, cfgv, dbsv, reportv, yankedv),
                decreases blobs.len(),
            {
                let blob = blobs.remove(0);
                reporter.report(blob);
            }
        },
        None => {},
    }

    Ok(())
}

} // verus!
