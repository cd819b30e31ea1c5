use vstd::prelude::*;
use crate::advisory::{spec_has_advisory, AdvisoryView};
use crate::cfg::{IgnoreEntryView, ValidConfigView};
use crate::diag::DiagnosticView;
use crate::engine::{
    all_findings_resolve, finding_diag, finding_diags, rev_first_match, spec_check_output,
    spec_findings, spec_hit, spec_hits, spec_skip_range, spec_yank_output, unknown_diags,
    unused_diags, vuln_findings, warning_findings, yank_diags, FindingView, finding_skip,
};
use crate::advisory::{dbset_ids_distinct, spec_is_vulnerable, AdvisoryKind, VersionsView};
use crate::engine::lemma_graph_index_unique;
use crate::package::{graph_index, graph_resolves, krates_distinct, lockfile_distinct, pkg_id_eq, PackageView};
use crate::report::{adv_matches_pkg, spec_vulns, spec_warnings, vulns_of_db, vulns_of_pkg, warns_of_db, warns_of_pkg, ReportView, VulnerabilityView, WarningView};
use crate::version::{pred_matches, pred_matches_triple, version_eq, Predicate, VersionView};

verus! {

/// How many diagnostics of a stream satisfy a predicate.
pub open spec fn count_diags(ds: Seq<DiagnosticView>, pred: spec_fn(DiagnosticView) -> bool) -> nat
    decreases ds.len(),
{
    if ds.len() == 0 {
        0
    } else {
        count_diags(ds.drop_last(), pred) + if pred(ds.last()) {
            1nat
        } else {
            0nat
        }
    }
}

pub proof fn lemma_count_diags_concat(
    a: Seq<DiagnosticView>,
    b: Seq<DiagnosticView>,
    pred: spec_fn(DiagnosticView) -> bool,
)
    ensures
        count_diags(a + b, pred) == count_diags(a, pred) + count_diags(b, pred),
    decreases b.len(),
{
    if b.len() == 0 {
        assert(a + b =~= a);
    } else {
        assert((a + b).drop_last() =~= a + b.drop_last());
        assert((a + b).last() == b.last());
        lemma_count_diags_concat(a, b.drop_last(), pred);
    }
}

pub proof fn lemma_count_diags_zero(ds: Seq<DiagnosticView>, pred: spec_fn(DiagnosticView) -> bool)
    requires
        forall|k: int| 0 <= k < ds.len() ==> !pred(ds[k]),
    ensures
        count_diags(ds, pred) == 0,
    decreases ds.len(),
{
    if ds.len() > 0 {
        assert(!pred(ds.last()));
        assert(forall|k: int| 0 <= k < ds.drop_last().len() ==> ds.drop_last()[k] == ds[k]);
        lemma_count_diags_zero(ds.drop_last(), pred);
    }
}

/// Every diagnostic a finding yields names an advisory: it is the advisory
/// diagnostic or the pre-release notice, never one of the other kinds.
pub proof fn lemma_finding_diags_shape(
    krates: Seq<PackageView>,
    cfg: ValidConfigView,
    fs: Seq<FindingView>,
)
    ensures
        forall|k: int| #![trigger finding_diags(krates, cfg, fs)[k]]
            0 <= k < finding_diags(krates, cfg, fs).len() ==> (finding_diags(krates, cfg, fs)[k]
                is Advisory || finding_diags(krates, cfg, fs)[k] is PrereleaseSkipped),
    decreases fs.len(),
{
    if fs.len() > 0 {
        lemma_finding_diags_shape(krates, cfg, fs.drop_last());
    }
}

/// The oracle's contribution holds only withdrawal diagnostics or the one
/// index-failure notice.
pub proof fn lemma_yank_output_shape(
    krates: Seq<PackageView>,
    cfg: ValidConfigView,
    yanked: Result<Seq<PackageView>, Seq<char>>,
)
    ensures
        forall|k: int| #![trigger spec_yank_output(krates, cfg, yanked)[k]]
            0 <= k < spec_yank_output(krates, cfg, yanked).len() ==> (spec_yank_output(
                krates,
                cfg,
                yanked,
            )[k] is Yanked || spec_yank_output(krates, cfg, yanked)[k] is IndexFailure),
{
    match yanked {
        Ok(ys) => {
            lemma_yank_diags_shape(krates, ys);
        },
        Err(_) => {},
    }
}

pub proof fn lemma_yank_diags_shape(krates: Seq<PackageView>, ys: Seq<PackageView>)
    ensures
        forall|k: int| #![trigger yank_diags(krates, ys)[k]]
            0 <= k < yank_diags(krates, ys).len() ==> yank_diags(krates, ys)[k] is Yanked,
    decreases ys.len(),
{
    if ys.len() > 0 {
        lemma_yank_diags_shape(krates, ys.drop_last());
    }
}

/// The unknown-ignore pass emits unknown-advisory notices alone, each
/// carrying the position of the entry it is about, inside the list.
pub proof fn lemma_unknown_diags_shape(
    dbs: Seq<Seq<AdvisoryView>>,
    ignore: Seq<IgnoreEntryView>,
)
    ensures
        forall|k: int| #![trigger unknown_diags(dbs, ignore)[k]]
            0 <= k < unknown_diags(dbs, ignore).len() ==> (unknown_diags(dbs, ignore)[k] matches
                DiagnosticView::UnknownAdvisory { ignore_index, .. } && 0 <= ignore_index
                < ignore.len()),
    decreases ignore.len(),
{
    if ignore.len() > 0 {
        lemma_unknown_diags_shape(dbs, ignore.drop_last());
    }
}

/// The unused-ignore pass emits unused-ignore notices alone, each carrying
/// the position of the entry it is about, inside the list.
pub proof fn lemma_unused_diags_shape(hits: Seq<bool>, ignore: Seq<IgnoreEntryView>)
    ensures
        forall|k: int| #![trigger unused_diags(hits, ignore)[k]]
            0 <= k < unused_diags(hits, ignore).len() ==> (unused_diags(hits, ignore)[k] matches
                DiagnosticView::UnusedIgnore { ignore_index, .. } && 0 <= ignore_index
                < ignore.len()),
    decreases ignore.len(),
{
    if ignore.len() > 0 && hits.len() == ignore.len() {
        lemma_unused_diags_shape(hits.drop_last(), ignore.drop_last());
    }
}

/// Is this the unknown-advisory notice for the entry at `j`?
pub open spec fn is_unknown_at(d: DiagnosticView, j: int) -> bool {
    d matches DiagnosticView::UnknownAdvisory { ignore_index, .. } && ignore_index == j
}

/// Is this the unused-ignore notice for the entry at `j`?
pub open spec fn is_unused_at(d: DiagnosticView, j: int) -> bool {
    d matches DiagnosticView::UnusedIgnore { ignore_index, .. } && ignore_index == j
}

pub proof fn lemma_unknown_diags_count(
    dbs: Seq<Seq<AdvisoryView>>,
    ignore: Seq<IgnoreEntryView>,
    j: int,
)
    requires
        0 <= j < ignore.len(),
    ensures
        count_diags(unknown_diags(dbs, ignore), |d: DiagnosticView| is_unknown_at(d, j))
            == if !spec_has_advisory(dbs, ignore[j].value) {
            1nat
        } else {
            0nat
        },
    decreases ignore.len(),
{
    let pred = |d: DiagnosticView| is_unknown_at(d, j);
    let rest = unknown_diags(dbs, ignore.drop_last());
    let tail = if !spec_has_advisory(dbs, ignore.last().value) {
        seq![
            DiagnosticView::UnknownAdvisory {
                ignore_index: ignore.len() - 1,
                advisory_id: ignore.last().value,
            },
        ]
    } else {
        Seq::<DiagnosticView>::empty()
    };
    assert(unknown_diags(dbs, ignore) == rest + tail);
    lemma_count_diags_concat(rest, tail, pred);
    if tail.len() > 0 {
        assert(tail.drop_last() =~= Seq::<DiagnosticView>::empty());
        assert(count_diags(Seq::<DiagnosticView>::empty(), pred) == 0);
        assert(tail.last() == tail[0]);
        assert(count_diags(tail, pred) == if pred(tail[0]) {
            1nat
        } else {
            0nat
        });
    }
    if j == ignore.len() - 1 {
        lemma_unknown_diags_shape(dbs, ignore.drop_last());
        lemma_count_diags_zero(rest, pred);
    } else {
        lemma_unknown_diags_count(dbs, ignore.drop_last(), j);
        assert(ignore.drop_last()[j] == ignore[j]);
        if tail.len() > 0 {
            assert(!pred(tail[0]));
        }
    }
}

pub proof fn lemma_unused_diags_count(hits: Seq<bool>, ignore: Seq<IgnoreEntryView>, j: int)
    requires
        0 <= j < ignore.len(),
        hits.len() == ignore.len(),
    ensures
        count_diags(unused_diags(hits, ignore), |d: DiagnosticView| is_unused_at(d, j)) == if !hits[j] {
            1nat
        } else {
            0nat
        },
    decreases ignore.len(),
{
    let pred = |d: DiagnosticView| is_unused_at(d, j);
    let rest = unused_diags(hits.drop_last(), ignore.drop_last());
    let tail = if !hits.last() {
        seq![
            DiagnosticView::UnusedIgnore {
                ignore_index: ignore.len() - 1,
                advisory_id: ignore.last().value,
            },
        ]
    } else {
        Seq::<DiagnosticView>::empty()
    };
    assert(unused_diags(hits, ignore) == rest + tail);
    lemma_count_diags_concat(rest, tail, pred);
    if tail.len() > 0 {
        assert(tail.drop_last() =~= Seq::<DiagnosticView>::empty());
        assert(count_diags(Seq::<DiagnosticView>::empty(), pred) == 0);
        assert(tail.last() == tail[0]);
        assert(count_diags(tail, pred) == if pred(tail[0]) {
            1nat
        } else {
            0nat
        });
    }
    if j == ignore.len() - 1 {
        lemma_unused_diags_shape(hits.drop_last(), ignore.drop_last());
        lemma_count_diags_zero(rest, pred);
    } else {
        lemma_unused_diags_count(hits.drop_last(), ignore.drop_last(), j);
        assert(ignore.drop_last()[j] == ignore[j]);
        assert(hits.drop_last()[j] == hits[j]);
        if tail.len() > 0 {
            assert(!pred(tail[0]));
        }
    }
}

/// For every configured ignore entry whose identifier no loaded database
/// knows, one run emits exactly one unknown-advisory notice for that entry,
/// whatever the findings and the oracle outcome; for a known identifier it
/// emits none.
pub proof fn lemma_unknown_ignore_reported_once(
    krates: Seq<PackageView>,
    cfg: ValidConfigView,
    dbs: Seq<Seq<AdvisoryView>>,
    report: ReportView,
    yanked: Result<Seq<PackageView>, Seq<char>>,
    j: int,
)
    requires
        0 <= j < cfg.ignore.len(),
    ensures
        count_diags(
            spec_check_output(krates, cfg, dbs, report, yanked),
            |d: DiagnosticView| is_unknown_at(d, j),
        ) == if !spec_has_advisory(dbs, cfg.ignore[j].value) {
            1nat
        } else {
            0nat
        },
{
    let pred = |d: DiagnosticView| is_unknown_at(d, j);
    let fs = spec_findings(report);
    let a = finding_diags(krates, cfg, fs);
    let b = spec_yank_output(krates, cfg, yanked);
    let c = unknown_diags(dbs, cfg.ignore);
    let d_ = unused_diags(spec_hits(cfg, fs), cfg.ignore);
    assert(spec_check_output(krates, cfg, dbs, report, yanked) == a + b + c + d_);
    lemma_count_diags_concat(a + b + c, d_, pred);
    lemma_count_diags_concat(a + b, c, pred);
    lemma_count_diags_concat(a, b, pred);
    lemma_finding_diags_shape(krates, cfg, fs);
    lemma_count_diags_zero(a, pred);
    lemma_yank_output_shape(krates, cfg, yanked);
    lemma_count_diags_zero(b, pred);
    lemma_unused_diags_shape(spec_hits(cfg, fs), cfg.ignore);
    lemma_count_diags_zero(d_, pred);
    lemma_unknown_diags_count(dbs, cfg.ignore, j);
}

/// The ignore-hit bitset always holds exactly one bit per configured ignore
/// entry, and for every entry never matched by any finding of the run, one
/// run emits exactly one unused-ignore notice for that entry; for a matched
/// entry it emits none.
pub proof fn lemma_unused_ignore_reported_once(
    krates: Seq<PackageView>,
    cfg: ValidConfigView,
    dbs: Seq<Seq<AdvisoryView>>,
    report: ReportView,
    yanked: Result<Seq<PackageView>, Seq<char>>,
    j: int,
)
    requires
        0 <= j < cfg.ignore.len(),
    ensures
        spec_hits(cfg, spec_findings(report)).len() == cfg.ignore.len(),
        count_diags(
            spec_check_output(krates, cfg, dbs, report, yanked),
            |d: DiagnosticView| is_unused_at(d, j),
        ) == if !spec_hit(cfg, spec_findings(report), j) {
            1nat
        } else {
            0nat
        },
{
    let pred = |d: DiagnosticView| is_unused_at(d, j);
    let fs = spec_findings(report);
    let hits = spec_hits(cfg, fs);
    let a = finding_diags(krates, cfg, fs);
    let b = spec_yank_output(krates, cfg, yanked);
    let c = unknown_diags(dbs, cfg.ignore);
    let d_ = unused_diags(hits, cfg.ignore);
    assert(spec_check_output(krates, cfg, dbs, report, yanked) == a + b + c + d_);
    lemma_count_diags_concat(a + b + c, d_, pred);
    lemma_count_diags_concat(a + b, c, pred);
    lemma_count_diags_concat(a, b, pred);
    lemma_finding_diags_shape(krates, cfg, fs);
    lemma_count_diags_zero(a, pred);
    lemma_yank_output_shape(krates, cfg, yanked);
    lemma_count_diags_zero(b, pred);
    lemma_unknown_diags_shape(dbs, cfg.ignore);
    lemma_count_diags_zero(c, pred);
    lemma_unused_diags_count(hits, cfg.ignore, j);
    assert(hits[j] == spec_hit(cfg, fs, j));
}

/// Idempotence: the diagnostic stream and the final ignore-hit bitset are
/// functions of the engine's inputs alone, so two runs on equal inputs agree
/// diagnostic for diagnostic and bit for bit.
pub proof fn lemma_check_idempotent(
    krates1: Seq<PackageView>,
    cfg1: ValidConfigView,
    dbs1: Seq<Seq<AdvisoryView>>,
    report1: ReportView,
    yanked1: Result<Seq<PackageView>, Seq<char>>,
    krates2: Seq<PackageView>,
    cfg2: ValidConfigView,
    dbs2: Seq<Seq<AdvisoryView>>,
    report2: ReportView,
    yanked2: Result<Seq<PackageView>, Seq<char>>,
)
    requires
        krates1 == krates2,
        cfg1 == cfg2,
        dbs1 == dbs2,
        report1 == report2,
        yanked1 == yanked2,
    ensures
        spec_check_output(krates1, cfg1, dbs1, report1, yanked1) == spec_check_output(
            krates2,
            cfg2,
            dbs2,
            report2,
            yanked2,
        ),
        spec_hits(cfg1, spec_findings(report1)) == spec_hits(cfg2, spec_findings(report2)),
{
}

/// The reverse walk returns the highest-declared matching predicate: when it
/// answers, the answer matches the triple and nothing declared after it
/// does; when it does not, nothing in the list matches.
pub proof fn lemma_rev_first_match_is_closest(
    preds: Seq<Predicate>,
    major: u64,
    minor: u64,
    patch: u64,
)
    ensures
        match rev_first_match(preds, major, minor, patch) {
            Some(p) => exists|w: int|
                0 <= w < preds.len() && preds[w] == p && pred_matches_triple(
                    #[trigger] preds[w],
                    major,
                    minor,
                    patch,
                ) && (forall|w2: int|
                    w < w2 < preds.len() ==> !pred_matches_triple(
                        #[trigger] preds[w2],
                        major,
                        minor,
                        patch,
                    )),
            None => forall|w: int|
                0 <= w < preds.len() ==> !pred_matches_triple(
                    #[trigger] preds[w],
                    major,
                    minor,
                    patch,
                ),
        },
    decreases preds.len(),
{
    if preds.len() == 0 {
    } else if pred_matches_triple(preds.last(), major, minor, patch) {
        let w = preds.len() - 1;
        assert(preds[w] == preds.last());
        assert(pred_matches_triple(preds[w], major, minor, patch));
    } else {
        lemma_rev_first_match_is_closest(preds.drop_last(), major, minor, patch);
        assert(forall|w: int| 0 <= w < preds.len() - 1 ==> preds.drop_last()[w] == preds[w]);
        match rev_first_match(preds.drop_last(), major, minor, patch) {
            Some(p) => {
                let w = choose|w: int|
                    0 <= w < preds.drop_last().len() && preds.drop_last()[w] == p
                        && pred_matches_triple(
                        #[trigger] preds.drop_last()[w],
                        major,
                        minor,
                        patch,
                    ) && (forall|w2: int|
                        w < w2 < preds.drop_last().len() ==> !pred_matches_triple(
                            #[trigger] preds.drop_last()[w2],
                            major,
                            minor,
                            patch,
                        ));
                assert(preds[w] == p);
                assert(pred_matches_triple(preds[w], major, minor, patch));
                assert forall|w2: int|
                    w < w2 < preds.len() implies !pred_matches_triple(
                    #[trigger] preds[w2],
                    major,
                    minor,
                    patch,
                ) by {
                    if w2 < preds.len() - 1 {
                        assert(preds.drop_last()[w2] == preds[w2]);
                    } else {
                        assert(preds[w2] == preds.last());
                    }
                }
            },
            None => {},
        }
    }
}

/// A version-scoped finding on a pre-release version that the workaround
/// catches yields the pre-release notice in place of the advisory
/// diagnostic, and the notice references the range the reverse walk found:
/// the highest-declared matching patched range, or, when no patched range
/// matches the stripped version, the highest-declared matching unaffected
/// range.
pub proof fn lemma_prerelease_skip_replaces_advisory(
    krates: Seq<PackageView>,
    cfg: ValidConfigView,
    f: FindingView,
)
    requires
        f.versions is Some,
        f.package.version.pre.len() > 0,
        finding_skip(f) is Some,
    ensures
        finding_diag(krates, cfg, f) == (DiagnosticView::PrereleaseSkipped {
            krate_index: graph_index(krates, f.package),
            advisory_id: f.advisory.id,
            range: finding_skip(f)->Some_0,
        }),
        !(finding_diag(krates, cfg, f) is Advisory),
        finding_skip(f) == spec_skip_range(f.package.version, f.versions->Some_0),
        rev_first_match(
            f.versions->Some_0.patched,
            f.package.version.major,
            f.package.version.minor,
            f.package.version.patch,
        ) is Some ==> finding_skip(f) == rev_first_match(
            f.versions->Some_0.patched,
            f.package.version.major,
            f.package.version.minor,
            f.package.version.patch,
        ),
        rev_first_match(
            f.versions->Some_0.patched,
            f.package.version.major,
            f.package.version.minor,
            f.package.version.patch,
        ) is None ==> finding_skip(f) == rev_first_match(
            f.versions->Some_0.unaffected,
            f.package.version.major,
            f.package.version.minor,
            f.package.version.patch,
        ),
{
}


/// How many elements of a sequence satisfy a predicate.
pub open spec fn count_seq<T>(s: Seq<T>, pred: spec_fn(T) -> bool) -> nat
    decreases s.len(),
{
    if s.len() == 0 {
        0
    } else {
        count_seq(s.drop_last(), pred) + if pred(s.last()) {
            1nat
        } else {
            0nat
        }
    }
}

pub proof fn lemma_count_seq_concat<T>(a: Seq<T>, b: Seq<T>, pred: spec_fn(T) -> bool)
    ensures
        count_seq(a + b, pred) == count_seq(a, pred) + count_seq(b, pred),
    decreases b.len(),
{
    if b.len() == 0 {
        assert(a + b =~= a);
    } else {
        assert((a + b).drop_last() =~= a + b.drop_last());
        assert((a + b).last() == b.last());
        lemma_count_seq_concat(a, b.drop_last(), pred);
    }
}

pub proof fn lemma_count_seq_zero<T>(s: Seq<T>, pred: spec_fn(T) -> bool)
    requires
        forall|k: int| 0 <= k < s.len() ==> !pred(#[trigger] s[k]),
    ensures
        count_seq(s, pred) == 0,
    decreases s.len(),
{
    if s.len() > 0 {
        assert(!pred(s.last()));
        assert(forall|k: int| 0 <= k < s.drop_last().len() ==> #[trigger] s.drop_last()[k] == s[k]);
        lemma_count_seq_zero(s.drop_last(), pred);
    }
}

pub proof fn lemma_count_seq_unique<T>(s: Seq<T>, pred: spec_fn(T) -> bool, w: int)
    requires
        0 <= w < s.len(),
        pred(s[w]),
        forall|k: int| 0 <= k < s.len() && k != w ==> !pred(#[trigger] s[k]),
    ensures
        count_seq(s, pred) == 1,
    decreases s.len(),
{
    assert(forall|k: int| 0 <= k < s.drop_last().len() ==> #[trigger] s.drop_last()[k] == s[k]);
    if w == s.len() - 1 {
        assert(pred(s.last()));
        lemma_count_seq_zero(s.drop_last(), pred);
    } else {
        assert(!pred(s.last()));
        lemma_count_seq_unique(s.drop_last(), pred, w);
    }
}

/// Is this the advisory diagnostic for graph node `i` and identifier `id`?
pub open spec fn is_advisory_for(d: DiagnosticView, i: int, id: Seq<char>) -> bool {
    d matches DiagnosticView::Advisory { krate_index, advisory_id, .. } && krate_index == i
        && advisory_id == id
}

pub open spec fn advisory_diag_at(i: int, id: Seq<char>) -> spec_fn(DiagnosticView) -> bool {
    |d: DiagnosticView| is_advisory_for(d, i, id)
}

pub open spec fn finding_for(krates: Seq<PackageView>, i: int, id: Seq<char>) -> spec_fn(
    FindingView,
) -> bool {
    |f: FindingView|
        finding_skip(f) is None && graph_index(krates, f.package) == i && f.advisory.id == id
}

pub open spec fn vuln_for(p: PackageView, id: Seq<char>) -> spec_fn(VulnerabilityView) -> bool {
    |v: VulnerabilityView| pkg_id_eq(v.package, p) && v.advisory.id == id
}

pub open spec fn warn_for(p: PackageView, id: Seq<char>) -> spec_fn(WarningView) -> bool {
    |w: WarningView| w.advisory is Some && pkg_id_eq(w.package, p) && w.advisory->Some_0.id == id
}

pub open spec fn adv_for(p: PackageView, id: Seq<char>) -> spec_fn(AdvisoryView) -> bool {
    |a: AdvisoryView|
        a.metadata.id == id && adv_matches_pkg(a, p) && a.metadata.kind
            == AdvisoryKind::Vulnerability
}

/// Versions that agree in every part are vulnerable under the same ranges.
pub proof fn lemma_vulnerable_congr(v1: VersionView, v2: VersionView, rs: VersionsView)
    requires
        version_eq(v1, v2),
    ensures
        spec_is_vulnerable(v1, rs) == spec_is_vulnerable(v2, rs),
{
    assert forall|k: int|
        #![trigger pred_matches(rs.patched[k], v1)]
        #![trigger pred_matches(rs.patched[k], v2)]
        0 <= k < rs.patched.len() implies pred_matches(rs.patched[k], v1) == pred_matches(
        rs.patched[k],
        v2,
    ) by {}
    assert forall|k: int|
        #![trigger pred_matches(rs.unaffected[k], v1)]
        #![trigger pred_matches(rs.unaffected[k], v2)]
        0 <= k < rs.unaffected.len() implies pred_matches(rs.unaffected[k], v1) == pred_matches(
        rs.unaffected[k],
        v2,
    ) by {}
}

/// Packages with the same identity are matched by the same advisories.
pub proof fn lemma_adv_matches_congr(a: AdvisoryView, q: PackageView, p: PackageView)
    requires
        pkg_id_eq(q, p),
    ensures
        adv_matches_pkg(a, q) == adv_matches_pkg(a, p),
{
    lemma_vulnerable_congr(q.version, p.version, a.versions);
}

/// Two resolving packages share a graph index exactly when they share an
/// identity.
pub proof fn lemma_same_index_same_identity(
    krates: Seq<PackageView>,
    p: PackageView,
    q: PackageView,
)
    requires
        krates_distinct(krates),
        graph_resolves(krates, p),
        graph_resolves(krates, q),
    ensures
        (graph_index(krates, q) == graph_index(krates, p)) == pkg_id_eq(q, p),
{
    let ip = graph_index(krates, p);
    let iq = graph_index(krates, q);
    assert(0 <= ip < krates.len() && pkg_id_eq(krates[ip], p));
    assert(0 <= iq < krates.len() && pkg_id_eq(krates[iq], q));
    if pkg_id_eq(q, p) {
        assert(pkg_id_eq(krates[ip], q));
        lemma_graph_index_unique(krates, q, ip);
    } else {
        if iq == ip {
            assert(pkg_id_eq(q, p));
        }
    }
}

pub proof fn lemma_count_finding_diags(
    krates: Seq<PackageView>,
    cfg: ValidConfigView,
    fs: Seq<FindingView>,
    i: int,
    id: Seq<char>,
)
    ensures
        count_diags(finding_diags(krates, cfg, fs), advisory_diag_at(i, id)) == count_seq(
            fs,
            finding_for(krates, i, id),
        ),
    decreases fs.len(),
{
    if fs.len() > 0 {
        lemma_count_finding_diags(krates, cfg, fs.drop_last(), i, id);
        let ds = finding_diags(krates, cfg, fs);
        let rec = finding_diags(krates, cfg, fs.drop_last());
        assert(ds == rec.push(finding_diag(krates, cfg, fs.last())));
        assert(ds.drop_last() =~= rec);
        assert(ds.last() == finding_diag(krates, cfg, fs.last()));
        assert(advisory_diag_at(i, id)(finding_diag(krates, cfg, fs.last())) == finding_for(
            krates,
            i,
            id,
        )(fs.last()));
    }
}

pub proof fn lemma_count_vuln_findings(
    krates: Seq<PackageView>,
    vs: Seq<VulnerabilityView>,
    p: PackageView,
    id: Seq<char>,
)
    requires
        krates_distinct(krates),
        graph_resolves(krates, p),
        p.version.pre.len() == 0,
        forall|k: int| 0 <= k < vs.len() ==> graph_resolves(krates, (#[trigger] vs[k]).package),
    ensures
        count_seq(vuln_findings(vs), finding_for(krates, graph_index(krates, p), id)) == count_seq(
            vs,
            vuln_for(p, id),
        ),
    decreases vs.len(),
{
    if vs.len() > 0 {
        assert(forall|k: int| 0 <= k < vs.drop_last().len() ==> #[trigger] vs.drop_last()[k] == vs[k]);
        lemma_count_vuln_findings(krates, vs.drop_last(), p, id);
        let i = graph_index(krates, p);
        let f = FindingView {
            package: vs.last().package,
            advisory: vs.last().advisory,
            versions: Some(vs.last().versions),
        };
        assert(vuln_findings(vs) == vuln_findings(vs.drop_last()).push(f));
        assert(vuln_findings(vs).drop_last() =~= vuln_findings(vs.drop_last()));
        assert(vuln_findings(vs).last() == f);
        assert(graph_resolves(krates, vs[vs.len() - 1].package));
        assert(finding_for(krates, i, id)(f) == vuln_for(p, id)(vs.last())) by {
            lemma_same_index_same_identity(krates, p, vs.last().package);
            if pkg_id_eq(vs.last().package, p) {
                assert(version_eq(vs.last().package.version, p.version));
                assert(f.package.version.pre.len() == 0);
                assert(finding_skip(f) is None);
            }
        }
    }
}

pub proof fn lemma_count_warn_findings(
    krates: Seq<PackageView>,
    ws: Seq<WarningView>,
    p: PackageView,
    id: Seq<char>,
)
    requires
        krates_distinct(krates),
        graph_resolves(krates, p),
        p.version.pre.len() == 0,
        forall|k: int|
            0 <= k < ws.len() ==> ((#[trigger] ws[k]).advisory is Some ==> graph_resolves(
                krates,
                ws[k].package,
            )),
    ensures
        count_seq(warning_findings(ws), finding_for(krates, graph_index(krates, p), id))
            == count_seq(ws, warn_for(p, id)),
    decreases ws.len(),
{
    if ws.len() > 0 {
        assert(forall|k: int| 0 <= k < ws.drop_last().len() ==> #[trigger] ws.drop_last()[k] == ws[k]);
        lemma_count_warn_findings(krates, ws.drop_last(), p, id);
        let i = graph_index(krates, p);
        match ws.last().advisory {
            Some(a) => {
                let f = FindingView {
                    package: ws.last().package,
                    advisory: a,
                    versions: ws.last().versions,
                };
                assert(warning_findings(ws) == warning_findings(ws.drop_last()).push(f));
                assert(warning_findings(ws).drop_last() =~= warning_findings(ws.drop_last()));
                assert(warning_findings(ws).last() == f);
                assert(graph_resolves(krates, ws[ws.len() - 1].package));
                assert(finding_for(krates, i, id)(f) == warn_for(p, id)(ws.last())) by {
                    lemma_same_index_same_identity(krates, p, ws.last().package);
                    if pkg_id_eq(ws.last().package, p) {
                        assert(version_eq(ws.last().package.version, p.version));
                        assert(f.package.version.pre.len() == 0);
                        assert(finding_skip(f) is None);
                    }
                }
            },
            None => {
                assert(warning_findings(ws) == warning_findings(ws.drop_last()));
                assert(!warn_for(p, id)(ws.last()));
            },
        }
    }
}

pub proof fn lemma_count_vulns_of_pkg(
    advs: Seq<AdvisoryView>,
    q: PackageView,
    p: PackageView,
    id: Seq<char>,
)
    ensures
        count_seq(vulns_of_pkg(advs, q), vuln_for(p, id)) == if pkg_id_eq(q, p) {
            count_seq(advs, adv_for(p, id))
        } else {
            0nat
        },
    decreases advs.len(),
{
    if advs.len() > 0 {
        lemma_count_vulns_of_pkg(advs.drop_last(), q, p, id);
        let a = advs.last();
        if pkg_id_eq(q, p) {
            lemma_adv_matches_congr(a, q, p);
        }
        if adv_matches_pkg(a, q) && a.metadata.kind == AdvisoryKind::Vulnerability {
            let e = VulnerabilityView { package: q, advisory: a.metadata, versions: a.versions };
            assert(vulns_of_pkg(advs, q) == vulns_of_pkg(advs.drop_last(), q).push(e));
            assert(vulns_of_pkg(advs, q).drop_last() =~= vulns_of_pkg(advs.drop_last(), q));
            assert(vulns_of_pkg(advs, q).last() == e);
        } else {
            assert(vulns_of_pkg(advs, q) == vulns_of_pkg(advs.drop_last(), q));
        }
    }
}

/// Is some lockfile entry this package, by name-plus-version identity?
pub open spec fn lock_has(lock: Seq<PackageView>, p: PackageView) -> bool {
    exists|w: int| 0 <= w < lock.len() && #[trigger] pkg_id_eq(lock[w], p)
}

pub proof fn lemma_count_vulns_of_db(
    advs: Seq<AdvisoryView>,
    lock: Seq<PackageView>,
    p: PackageView,
    id: Seq<char>,
)
    requires
        lockfile_distinct(lock),
    ensures
        count_seq(vulns_of_db(advs, lock), vuln_for(p, id)) == if lock_has(lock, p) {
            count_seq(advs, adv_for(p, id))
        } else {
            0nat
        },
    decreases lock.len(),
{
    if lock.len() > 0 {
        assert(forall|k: int|
            0 <= k < lock.drop_last().len() ==> #[trigger] lock.drop_last()[k] == lock[k]);
        lemma_count_vulns_of_db(advs, lock.drop_last(), p, id);
        lemma_count_vulns_of_pkg(advs, lock.last(), p, id);
        assert(vulns_of_db(advs, lock) == vulns_of_db(advs, lock.drop_last()) + vulns_of_pkg(
            advs,
            lock.last(),
        ));
        lemma_count_seq_concat(
            vulns_of_db(advs, lock.drop_last()),
            vulns_of_pkg(advs, lock.last()),
            vuln_for(p, id),
        );
        if pkg_id_eq(lock.last(), p) {
            assert(pkg_id_eq(lock[lock.len() - 1], p));
            assert(lock_has(lock, p));
            assert(!lock_has(lock.drop_last(), p)) by {
                if lock_has(lock.drop_last(), p) {
                    let w = choose|w: int|
                        0 <= w < lock.drop_last().len() && #[trigger] pkg_id_eq(
                            lock.drop_last()[w],
                            p,
                        );
                    assert(pkg_id_eq(lock[w], p));
                    assert(pkg_id_eq(lock[w], lock[lock.len() - 1]));
                    assert(false);
                }
            }
        } else {
            assert(lock_has(lock, p) == lock_has(lock.drop_last(), p)) by {
                if lock_has(lock, p) {
                    let w = choose|w: int| 0 <= w < lock.len() && #[trigger] pkg_id_eq(lock[w], p);
                    assert(w < lock.len() - 1);
                    assert(pkg_id_eq(lock.drop_last()[w], p));
                }
                if lock_has(lock.drop_last(), p) {
                    let w = choose|w: int|
                        0 <= w < lock.drop_last().len() && #[trigger] pkg_id_eq(
                            lock.drop_last()[w],
                            p,
                        );
                    assert(pkg_id_eq(lock[w], p));
                }
            }
        }
    }
}

pub proof fn lemma_count_vulns_no_id(
    dbs: Seq<Seq<AdvisoryView>>,
    lock: Seq<PackageView>,
    p: PackageView,
    id: Seq<char>,
)
    requires
        lockfile_distinct(lock),
        forall|d: int, a: int|
            0 <= d < dbs.len() && 0 <= a < dbs[d].len() ==> (#[trigger] dbs[d][a]).metadata.id
                != id,
    ensures
        count_seq(spec_vulns(dbs, lock), vuln_for(p, id)) == 0,
    decreases dbs.len(),
{
    if dbs.len() > 0 {
        assert(forall|k: int|
            0 <= k < dbs.drop_last().len() ==> #[trigger] dbs.drop_last()[k] == dbs[k]);
        lemma_count_vulns_no_id(dbs.drop_last(), lock, p, id);
        lemma_count_vulns_of_db(dbs.last(), lock, p, id);
        assert(count_seq(dbs.last(), adv_for(p, id)) == 0) by {
            assert forall|a: int| 0 <= a < dbs.last().len() implies !adv_for(p, id)(
                #[trigger] dbs.last()[a],
            ) by {
                assert(dbs[dbs.len() - 1][a].metadata.id != id);
            }
            lemma_count_seq_zero(dbs.last(), adv_for(p, id));
        }
        assert(spec_vulns(dbs, lock) == spec_vulns(dbs.drop_last(), lock) + vulns_of_db(
            dbs.last(),
            lock,
        ));
        lemma_count_seq_concat(
            spec_vulns(dbs.drop_last(), lock),
            vulns_of_db(dbs.last(), lock),
            vuln_for(p, id),
        );
    }
}

pub proof fn lemma_count_spec_vulns_one(
    dbs: Seq<Seq<AdvisoryView>>,
    lock: Seq<PackageView>,
    p: PackageView,
    id: Seq<char>,
)
    requires
        dbset_ids_distinct(dbs),
        lockfile_distinct(lock),
        lock_has(lock, p),
        exists|d: int, a: int|
            0 <= d < dbs.len() && 0 <= a < dbs[d].len() && (#[trigger] dbs[d][a]).metadata.id
                == id,
        forall|d: int, a: int|
            0 <= d < dbs.len() && 0 <= a < dbs[d].len() && (#[trigger] dbs[d][a]).metadata.id
                == id ==> (adv_matches_pkg(dbs[d][a], p) && dbs[d][a].metadata.kind
                == AdvisoryKind::Vulnerability),
    ensures
        count_seq(spec_vulns(dbs, lock), vuln_for(p, id)) == 1,
    decreases dbs.len(),
{
    let (d0, a0) = choose|d: int, a: int|
        0 <= d < dbs.len() && 0 <= a < dbs[d].len() && (#[trigger] dbs[d][a]).metadata.id == id;
    let m = dbs.len() - 1;
    assert(forall|k: int| 0 <= k < dbs.drop_last().len() ==> #[trigger] dbs.drop_last()[k] == dbs[k]);
    assert(spec_vulns(dbs, lock) == spec_vulns(dbs.drop_last(), lock) + vulns_of_db(
        dbs.last(),
        lock,
    ));
    lemma_count_seq_concat(
        spec_vulns(dbs.drop_last(), lock),
        vulns_of_db(dbs.last(), lock),
        vuln_for(p, id),
    );
    lemma_count_vulns_of_db(dbs.last(), lock, p, id);
    if d0 == m {
        assert forall|d: int, a: int|
            0 <= d < dbs.drop_last().len() && 0 <= a < dbs.drop_last()[d].len() implies (#[trigger] dbs.drop_last()[d][a]).metadata.id
            != id by {
            if dbs[d][a].metadata.id == id {
                assert(dbs[d][a].metadata.id == dbs[d0][a0].metadata.id);
                assert(d != d0);
            }
        }
        lemma_count_vulns_no_id(dbs.drop_last(), lock, p, id);
        assert(count_seq(dbs.last(), adv_for(p, id)) == 1) by {
            assert(adv_for(p, id)(dbs[m][a0]));
            assert forall|a: int|
                0 <= a < dbs.last().len() && a != a0 implies !adv_for(p, id)(
                #[trigger] dbs.last()[a],
            ) by {
                if dbs[m][a].metadata.id == id {
                    assert(dbs[m][a].metadata.id == dbs[d0][a0].metadata.id);
                    assert(false);
                }
            }
            lemma_count_seq_unique(dbs.last(), adv_for(p, id), a0);
        }
    } else {
        assert(count_seq(dbs.last(), adv_for(p, id)) == 0) by {
            assert forall|a: int| 0 <= a < dbs.last().len() implies !adv_for(p, id)(
                #[trigger] dbs.last()[a],
            ) by {
                if dbs[m][a].metadata.id == id {
                    assert(dbs[m][a].metadata.id == dbs[d0][a0].metadata.id);
                    assert(false);
                }
            }
            lemma_count_seq_zero(dbs.last(), adv_for(p, id));
        }
        assert(0 <= d0 < dbs.drop_last().len() && 0 <= a0 < dbs.drop_last()[d0].len()
            && dbs.drop_last()[d0][a0].metadata.id == id);
        lemma_count_spec_vulns_one(dbs.drop_last(), lock, p, id);
    }
}

pub proof fn lemma_warns_of_pkg_zero(
    advs: Seq<AdvisoryView>,
    q: PackageView,
    p: PackageView,
    id: Seq<char>,
)
    requires
        forall|a: int|
            0 <= a < advs.len() && (#[trigger] advs[a]).metadata.id == id ==> advs[a].metadata.kind
                == AdvisoryKind::Vulnerability,
    ensures
        count_seq(warns_of_pkg(advs, q), warn_for(p, id)) == 0,
    decreases advs.len(),
{
    if advs.len() > 0 {
        assert(forall|k: int|
            0 <= k < advs.drop_last().len() ==> #[trigger] advs.drop_last()[k] == advs[k]);
        lemma_warns_of_pkg_zero(advs.drop_last(), q, p, id);
        let a = advs.last();
        if adv_matches_pkg(a, q) && a.metadata.kind != AdvisoryKind::Vulnerability {
            let e = WarningView {
                package: q,
                advisory: Some(a.metadata),
                versions: Some(a.versions),
            };
            assert(warns_of_pkg(advs, q) == warns_of_pkg(advs.drop_last(), q).push(e));
            assert(warns_of_pkg(advs, q).drop_last() =~= warns_of_pkg(advs.drop_last(), q));
            assert(warns_of_pkg(advs, q).last() == e);
            assert(!warn_for(p, id)(e)) by {
                if a.metadata.id == id {
                    assert(advs[advs.len() - 1].metadata.id == id);
                    assert(false);
                }
            }
        } else {
            assert(warns_of_pkg(advs, q) == warns_of_pkg(advs.drop_last(), q));
        }
    }
}

pub proof fn lemma_warns_of_db_zero(
    advs: Seq<AdvisoryView>,
    lock: Seq<PackageView>,
    p: PackageView,
    id: Seq<char>,
)
    requires
        forall|a: int|
            0 <= a < advs.len() && (#[trigger] advs[a]).metadata.id == id ==> advs[a].metadata.kind
                == AdvisoryKind::Vulnerability,
    ensures
        count_seq(warns_of_db(advs, lock), warn_for(p, id)) == 0,
    decreases lock.len(),
{
    if lock.len() > 0 {
        lemma_warns_of_db_zero(advs, lock.drop_last(), p, id);
        lemma_warns_of_pkg_zero(advs, lock.last(), p, id);
        assert(warns_of_db(advs, lock) == warns_of_db(advs, lock.drop_last()) + warns_of_pkg(
            advs,
            lock.last(),
        ));
        lemma_count_seq_concat(
            warns_of_db(advs, lock.drop_last()),
            warns_of_pkg(advs, lock.last()),
            warn_for(p, id),
        );
    }
}

pub proof fn lemma_spec_warnings_zero(
    dbs: Seq<Seq<AdvisoryView>>,
    lock: Seq<PackageView>,
    p: PackageView,
    id: Seq<char>,
)
    requires
        forall|d: int, a: int|
            0 <= d < dbs.len() && 0 <= a < dbs[d].len() && (#[trigger] dbs[d][a]).metadata.id
                == id ==> dbs[d][a].metadata.kind == AdvisoryKind::Vulnerability,
    ensures
        count_seq(spec_warnings(dbs, lock), warn_for(p, id)) == 0,
    decreases dbs.len(),
{
    if dbs.len() > 0 {
        assert(forall|k: int|
            0 <= k < dbs.drop_last().len() ==> #[trigger] dbs.drop_last()[k] == dbs[k]);
        lemma_spec_warnings_zero(dbs.drop_last(), lock, p, id);
        assert forall|a: int|
            0 <= a < dbs.last().len() && (#[trigger] dbs.last()[a]).metadata.id
                == id implies dbs.last()[a].metadata.kind == AdvisoryKind::Vulnerability by {
            assert(dbs[dbs.len() - 1][a].metadata.id == id);
        }
        lemma_warns_of_db_zero(dbs.last(), lock, p, id);
        assert(spec_warnings(dbs, lock) == spec_warnings(dbs.drop_last(), lock) + warns_of_db(
            dbs.last(),
            lock,
        ));
        lemma_count_seq_concat(
            spec_warnings(dbs.drop_last(), lock),
            warns_of_db(dbs.last(), lock),
            warn_for(p, id),
        );
    }
}

pub proof fn lemma_vuln_findings_index(vs: Seq<VulnerabilityView>)
    ensures
        vuln_findings(vs).len() == vs.len(),
        forall|k: int|
            0 <= k < vs.len() ==> #[trigger] vuln_findings(vs)[k] == (FindingView {
                package: vs[k].package,
                advisory: vs[k].advisory,
                versions: Some(vs[k].versions),
            }),
    decreases vs.len(),
{
    if vs.len() > 0 {
        assert(forall|k: int| 0 <= k < vs.drop_last().len() ==> #[trigger] vs.drop_last()[k] == vs[k]);
        lemma_vuln_findings_index(vs.drop_last());
    }
}

pub proof fn lemma_warning_findings_resolve(krates: Seq<PackageView>, ws: Seq<WarningView>)
    requires
        forall|k: int|
            0 <= k < warning_findings(ws).len() ==> graph_resolves(
                krates,
                (#[trigger] warning_findings(ws)[k]).package,
            ),
    ensures
        forall|k: int|
            0 <= k < ws.len() ==> ((#[trigger] ws[k]).advisory is Some ==> graph_resolves(
                krates,
                ws[k].package,
            )),
    decreases ws.len(),
{
    if ws.len() > 0 {
        let rec = warning_findings(ws.drop_last());
        assert forall|k: int|
            0 <= k < rec.len() implies graph_resolves(krates, (#[trigger] rec[k]).package) by {
            match ws.last().advisory {
                Some(a) => {
                    let f = FindingView {
                        package: ws.last().package,
                        advisory: a,
                        versions: ws.last().versions,
                    };
                    assert(warning_findings(ws) == rec.push(f));
                    assert(rec[k] == warning_findings(ws)[k]);
                    assert(graph_resolves(krates, warning_findings(ws)[k].package));
                },
                None => {
                    assert(warning_findings(ws) == rec);
                    assert(rec[k] == warning_findings(ws)[k]);
                    assert(graph_resolves(krates, warning_findings(ws)[k].package));
                },
            }
        }
        lemma_warning_findings_resolve(krates, ws.drop_last());
        assert forall|k: int|
            0 <= k < ws.len() && (#[trigger] ws[k]).advisory is Some implies graph_resolves(
            krates,
            ws[k].package,
        ) by {
            if k < ws.len() - 1 {
                assert(ws.drop_last()[k] == ws[k]);
                assert(ws.drop_last()[k].advisory is Some ==> graph_resolves(
                    krates,
                    ws.drop_last()[k].package,
                ));
            } else {
                match ws.last().advisory {
                    Some(a) => {
                        let f = FindingView {
                            package: ws.last().package,
                            advisory: a,
                            versions: ws.last().versions,
                        };
                        assert(warning_findings(ws) == rec.push(f));
                        assert(warning_findings(ws)[rec.len() as int] == f);
                        assert(graph_resolves(
                            krates,
                            warning_findings(ws)[rec.len() as int].package,
                        ));
                    },
                    None => {},
                }
            }
        }
    }
}

/// For a lockfile package with a plain (non-pre-release) version and a
/// matching vulnerability advisory, one run emits exactly one advisory
/// diagnostic naming that package's graph node and that advisory; and a bit
/// of the ignore-hit bitset is only ever set for an entry whose identifier a
/// reported finding carries.
pub proof fn lemma_vulnerability_reported_once(
    krates: Seq<PackageView>,
    cfg: ValidConfigView,
    dbs: Seq<Seq<AdvisoryView>>,
    lock: Seq<PackageView>,
    report: ReportView,
    yanked: Result<Seq<PackageView>, Seq<char>>,
    p: PackageView,
    adv: AdvisoryView,
)
    requires
        krates_distinct(krates),
        lockfile_distinct(lock),
        dbset_ids_distinct(dbs),
        report.vulnerabilities == spec_vulns(dbs, lock),
        report.warnings == spec_warnings(dbs, lock),
        lock_has(lock, p),
        p.version.pre.len() == 0,
        exists|d: int, a: int|
            0 <= d < dbs.len() && 0 <= a < dbs[d].len() && #[trigger] dbs[d][a] == adv,
        adv.metadata.kind == AdvisoryKind::Vulnerability,
        adv_matches_pkg(adv, p),
        graph_resolves(krates, p),
        all_findings_resolve(krates, spec_findings(report)),
    ensures
        count_diags(
            spec_check_output(krates, cfg, dbs, report, yanked),
            advisory_diag_at(graph_index(krates, p), adv.metadata.id),
        ) == 1,
        forall|j: int|
            0 <= j < cfg.ignore.len() && #[trigger] spec_hit(cfg, spec_findings(report), j)
                ==> exists|k: int|
                0 <= k < spec_findings(report).len() && (#[trigger] spec_findings(
                    report,
                )[k]).advisory.id == cfg.ignore[j].value,
{
    let id = adv.metadata.id;
    let i = graph_index(krates, p);
    let fs = spec_findings(report);
    let vf = vuln_findings(report.vulnerabilities);
    let wf = warning_findings(report.warnings);
    let pred = advisory_diag_at(i, id);
    let (d0, a0) = choose|d: int, a: int|
        0 <= d < dbs.len() && 0 <= a < dbs[d].len() && #[trigger] dbs[d][a] == adv;

    assert forall|d: int, a: int|
        0 <= d < dbs.len() && 0 <= a < dbs[d].len() && (#[trigger] dbs[d][a]).metadata.id
            == id implies (adv_matches_pkg(dbs[d][a], p) && dbs[d][a].metadata.kind
        == AdvisoryKind::Vulnerability) by {
        if d != d0 || a != a0 {
            assert(dbs[d][a].metadata.id != dbs[d0][a0].metadata.id);
            assert(false);
        }
    }
    assert(dbs[d0][a0].metadata.id == id);
    lemma_count_spec_vulns_one(dbs, lock, p, id);
    lemma_spec_warnings_zero(dbs, lock, p, id);

    // Every package the findings carry resolves, read back through the two
    // halves of the finding list.
    assert(fs == vf + wf);
    lemma_vuln_findings_index(report.vulnerabilities);
    assert forall|k: int|
        0 <= k < report.vulnerabilities.len() implies graph_resolves(
        krates,
        (#[trigger] report.vulnerabilities[k]).package,
    ) by {
        assert(fs[k] == vf[k]);
        assert(graph_resolves(krates, fs[k].package));
    }
    assert forall|k: int|
        0 <= k < wf.len() implies graph_resolves(krates, (#[trigger] wf[k]).package) by {
        assert(fs[vf.len() + k] == wf[k]);
        assert(graph_resolves(krates, fs[vf.len() + k].package));
    }
    lemma_warning_findings_resolve(krates, report.warnings);
    lemma_count_vuln_findings(krates, report.vulnerabilities, p, id);
    lemma_count_warn_findings(krates, report.warnings, p, id);
    lemma_count_seq_concat(vf, wf, finding_for(krates, i, id));
    lemma_count_finding_diags(krates, cfg, fs, i, id);

    // The other three segments of the stream hold no advisory diagnostic.
    let a_ = finding_diags(krates, cfg, fs);
    let b_ = spec_yank_output(krates, cfg, yanked);
    let c_ = unknown_diags(dbs, cfg.ignore);
    let d_ = unused_diags(spec_hits(cfg, fs), cfg.ignore);
    assert(spec_check_output(krates, cfg, dbs, report, yanked) == a_ + b_ + c_ + d_);
    lemma_count_diags_concat(a_ + b_ + c_, d_, pred);
    lemma_count_diags_concat(a_ + b_, c_, pred);
    lemma_count_diags_concat(a_, b_, pred);
    lemma_yank_output_shape(krates, cfg, yanked);
    lemma_count_diags_zero(b_, pred);
    lemma_unknown_diags_shape(dbs, cfg.ignore);
    lemma_count_diags_zero(c_, pred);
    lemma_unused_diags_shape(spec_hits(cfg, fs), cfg.ignore);
    lemma_count_diags_zero(d_, pred);

    // A set bit always points back at a finding carrying the entry's
    // identifier.
    assert forall|j: int|
        0 <= j < cfg.ignore.len() && #[trigger] spec_hit(cfg, fs, j) implies exists|k: int|
        0 <= k < fs.len() && (#[trigger] fs[k]).advisory.id == cfg.ignore[j].value by {
        let k = choose|k: int|
            0 <= k < fs.len() && finding_skip(#[trigger] fs[k]) is None && fs[k].advisory.id
                == cfg.ignore[j].value;
        assert(fs[k].advisory.id == cfg.ignore[j].value);
    }
}


/// Is this the pre-release notice for graph node `i`, identifier `id`, and
/// range `r0`?
pub open spec fn is_prerelease_for(d: DiagnosticView, i: int, id: Seq<char>, r0: Predicate) -> bool {
    d matches DiagnosticView::PrereleaseSkipped { krate_index, advisory_id, range } && krate_index
        == i && advisory_id == id && range == r0
}

pub open spec fn prerelease_diag_at(i: int, id: Seq<char>, r0: Predicate) -> spec_fn(
    DiagnosticView,
) -> bool {
    |d: DiagnosticView| is_prerelease_for(d, i, id, r0)
}

pub open spec fn skipped_finding_for(
    krates: Seq<PackageView>,
    i: int,
    id: Seq<char>,
    r0: Predicate,
) -> spec_fn(FindingView) -> bool {
    |f: FindingView|
        finding_skip(f) == Some(r0) && graph_index(krates, f.package) == i && f.advisory.id == id
}

pub proof fn lemma_count_finding_diags_skipped(
    krates: Seq<PackageView>,
    cfg: ValidConfigView,
    fs: Seq<FindingView>,
    i: int,
    id: Seq<char>,
    r0: Predicate,
)
    ensures
        count_diags(finding_diags(krates, cfg, fs), prerelease_diag_at(i, id, r0)) == count_seq(
            fs,
            skipped_finding_for(krates, i, id, r0),
        ),
    decreases fs.len(),
{
    if fs.len() > 0 {
        lemma_count_finding_diags_skipped(krates, cfg, fs.drop_last(), i, id, r0);
        let ds = finding_diags(krates, cfg, fs);
        let rec = finding_diags(krates, cfg, fs.drop_last());
        assert(ds == rec.push(finding_diag(krates, cfg, fs.last())));
        assert(ds.drop_last() =~= rec);
        assert(ds.last() == finding_diag(krates, cfg, fs.last()));
        assert(prerelease_diag_at(i, id, r0)(finding_diag(krates, cfg, fs.last()))
            == skipped_finding_for(krates, i, id, r0)(fs.last()));
    }
}

/// Every vulnerability record that carries this identifier carries the one
/// advisory declared for it: its metadata and its ranges.
pub proof fn lemma_vulns_of_pkg_carry(
    advs: Seq<AdvisoryView>,
    q: PackageView,
    id: Seq<char>,
    rs0: VersionsView,
)
    requires
        forall|a: int|
            0 <= a < advs.len() && (#[trigger] advs[a]).metadata.id == id ==> advs[a].versions
                == rs0,
    ensures
        forall|k: int|
            0 <= k < vulns_of_pkg(advs, q).len() && (#[trigger] vulns_of_pkg(
                advs,
                q,
            )[k]).advisory.id == id ==> vulns_of_pkg(advs, q)[k].versions == rs0,
    decreases advs.len(),
{
    if advs.len() > 0 {
        assert(forall|k: int|
            0 <= k < advs.drop_last().len() ==> #[trigger] advs.drop_last()[k] == advs[k]);
        lemma_vulns_of_pkg_carry(advs.drop_last(), q, id, rs0);
        let rec = vulns_of_pkg(advs.drop_last(), q);
        let a = advs.last();
        assert forall|k: int|
            0 <= k < vulns_of_pkg(advs, q).len() && (#[trigger] vulns_of_pkg(
                advs,
                q,
            )[k]).advisory.id == id implies vulns_of_pkg(advs, q)[k].versions == rs0 by {
            if adv_matches_pkg(a, q) && a.metadata.kind == AdvisoryKind::Vulnerability {
                if k < rec.len() {
                    assert(vulns_of_pkg(advs, q)[k] == rec[k]);
                } else {
                    assert(vulns_of_pkg(advs, q)[k].advisory == a.metadata);
                    assert(advs[advs.len() - 1].metadata.id == id);
                }
            } else {
                assert(vulns_of_pkg(advs, q)[k] == rec[k]);
            }
        }
    }
}

pub proof fn lemma_vulns_of_db_carry(
    advs: Seq<AdvisoryView>,
    lock: Seq<PackageView>,
    id: Seq<char>,
    rs0: VersionsView,
)
    requires
        forall|a: int|
            0 <= a < advs.len() && (#[trigger] advs[a]).metadata.id == id ==> advs[a].versions
                == rs0,
    ensures
        forall|k: int|
            0 <= k < vulns_of_db(advs, lock).len() && (#[trigger] vulns_of_db(
                advs,
                lock,
            )[k]).advisory.id == id ==> vulns_of_db(advs, lock)[k].versions == rs0,
    decreases lock.len(),
{
    if lock.len() > 0 {
        lemma_vulns_of_db_carry(advs, lock.drop_last(), id, rs0);
        lemma_vulns_of_pkg_carry(advs, lock.last(), id, rs0);
        let rec = vulns_of_db(advs, lock.drop_last());
        let tail = vulns_of_pkg(advs, lock.last());
        assert(vulns_of_db(advs, lock) == rec + tail);
        assert forall|k: int|
            0 <= k < vulns_of_db(advs, lock).len() && (#[trigger] vulns_of_db(
                advs,
                lock,
            )[k]).advisory.id == id implies vulns_of_db(advs, lock)[k].versions == rs0 by {
            if k < rec.len() {
                assert(vulns_of_db(advs, lock)[k] == rec[k]);
            } else {
                assert(vulns_of_db(advs, lock)[k] == tail[k - rec.len()]);
            }
        }
    }
}

pub proof fn lemma_spec_vulns_carry(
    dbs: Seq<Seq<AdvisoryView>>,
    lock: Seq<PackageView>,
    id: Seq<char>,
    rs0: VersionsView,
)
    requires
        forall|d: int, a: int|
            0 <= d < dbs.len() && 0 <= a < dbs[d].len() && (#[trigger] dbs[d][a]).metadata.id
                == id ==> dbs[d][a].versions == rs0,
    ensures
        forall|k: int|
            0 <= k < spec_vulns(dbs, lock).len() && (#[trigger] spec_vulns(
                dbs,
                lock,
            )[k]).advisory.id == id ==> spec_vulns(dbs, lock)[k].versions == rs0,
    decreases dbs.len(),
{
    if dbs.len() > 0 {
        assert(forall|k: int|
            0 <= k < dbs.drop_last().len() ==> #[trigger] dbs.drop_last()[k] == dbs[k]);
        lemma_spec_vulns_carry(dbs.drop_last(), lock, id, rs0);
        assert forall|a: int|
            0 <= a < dbs.last().len() && (#[trigger] dbs.last()[a]).metadata.id == id implies dbs.last()[a].versions
            == rs0 by {
            assert(dbs[dbs.len() - 1][a].metadata.id == id);
        }
        lemma_vulns_of_db_carry(dbs.last(), lock, id, rs0);
        let rec = spec_vulns(dbs.drop_last(), lock);
        let tail = vulns_of_db(dbs.last(), lock);
        assert(spec_vulns(dbs, lock) == rec + tail);
        assert forall|k: int|
            0 <= k < spec_vulns(dbs, lock).len() && (#[trigger] spec_vulns(
                dbs,
                lock,
            )[k]).advisory.id == id implies spec_vulns(dbs, lock)[k].versions == rs0 by {
            if k < rec.len() {
                assert(spec_vulns(dbs, lock)[k] == rec[k]);
            } else {
                assert(spec_vulns(dbs, lock)[k] == tail[k - rec.len()]);
            }
        }
    }
}

/// No warning of the run carries this identifier when the advisory declared
/// for it is a vulnerability.
pub proof fn lemma_warns_of_pkg_no_id(
    advs: Seq<AdvisoryView>,
    q: PackageView,
    id: Seq<char>,
)
    requires
        forall|a: int|
            0 <= a < advs.len() && (#[trigger] advs[a]).metadata.id == id ==> advs[a].metadata.kind
                == AdvisoryKind::Vulnerability,
    ensures
        forall|k: int|
            0 <= k < warns_of_pkg(advs, q).len() ==> ((#[trigger] warns_of_pkg(
                advs,
                q,
            )[k]).advisory matches Some(m) && m.id != id),
    decreases advs.len(),
{
    if advs.len() > 0 {
        assert(forall|k: int|
            0 <= k < advs.drop_last().len() ==> #[trigger] advs.drop_last()[k] == advs[k]);
        lemma_warns_of_pkg_no_id(advs.drop_last(), q, id);
        let rec = warns_of_pkg(advs.drop_last(), q);
        let a = advs.last();
        assert forall|k: int|
            0 <= k < warns_of_pkg(advs, q).len() implies ((#[trigger] warns_of_pkg(
            advs,
            q,
        )[k]).advisory matches Some(m) && m.id != id) by {
            if adv_matches_pkg(a, q) && a.metadata.kind != AdvisoryKind::Vulnerability {
                if k < rec.len() {
                    assert(warns_of_pkg(advs, q)[k] == rec[k]);
                } else {
                    assert(warns_of_pkg(advs, q)[k].advisory == Some(a.metadata));
                    if a.metadata.id == id {
                        assert(advs[advs.len() - 1].metadata.id == id);
                        assert(false);
                    }
                }
            } else {
                assert(warns_of_pkg(advs, q)[k] == rec[k]);
            }
        }
    }
}

pub proof fn lemma_warns_of_db_no_id(
    advs: Seq<AdvisoryView>,
    lock: Seq<PackageView>,
    id: Seq<char>,
)
    requires
        forall|a: int|
            0 <= a < advs.len() && (#[trigger] advs[a]).metadata.id == id ==> advs[a].metadata.kind
                == AdvisoryKind::Vulnerability,
    ensures
        forall|k: int|
            0 <= k < warns_of_db(advs, lock).len() ==> ((#[trigger] warns_of_db(
                advs,
                lock,
            )[k]).advisory matches Some(m) && m.id != id),
    decreases lock.len(),
{
    if lock.len() > 0 {
        lemma_warns_of_db_no_id(advs, lock.drop_last(), id);
        lemma_warns_of_pkg_no_id(advs, lock.last(), id);
        let rec = warns_of_db(advs, lock.drop_last());
        let tail = warns_of_pkg(advs, lock.last());
        assert(warns_of_db(advs, lock) == rec + tail);
        assert forall|k: int|
            0 <= k < warns_of_db(advs, lock).len() implies ((#[trigger] warns_of_db(
            advs,
            lock,
        )[k]).advisory matches Some(m) && m.id != id) by {
            if k < rec.len() {
                assert(warns_of_db(advs, lock)[k] == rec[k]);
            } else {
                assert(warns_of_db(advs, lock)[k] == tail[k - rec.len()]);
            }
        }
    }
}

pub proof fn lemma_spec_warnings_no_id(
    dbs: Seq<Seq<AdvisoryView>>,
    lock: Seq<PackageView>,
    id: Seq<char>,
)
    requires
        forall|d: int, a: int|
            0 <= d < dbs.len() && 0 <= a < dbs[d].len() && (#[trigger] dbs[d][a]).metadata.id
                == id ==> dbs[d][a].metadata.kind == AdvisoryKind::Vulnerability,
    ensures
        forall|k: int|
            0 <= k < spec_warnings(dbs, lock).len() ==> ((#[trigger] spec_warnings(
                dbs,
                lock,
            )[k]).advisory matches Some(m) && m.id != id),
    decreases dbs.len(),
{
    if dbs.len() > 0 {
        assert(forall|k: int|
            0 <= k < dbs.drop_last().len() ==> #[trigger] dbs.drop_last()[k] == dbs[k]);
        lemma_spec_warnings_no_id(dbs.drop_last(), lock, id);
        assert forall|a: int|
            0 <= a < dbs.last().len() && (#[trigger] dbs.last()[a]).metadata.id == id implies dbs.last()[a].metadata.kind
            == AdvisoryKind::Vulnerability by {
            assert(dbs[dbs.len() - 1][a].metadata.id == id);
        }
        lemma_warns_of_db_no_id(dbs.last(), lock, id);
        let rec = spec_warnings(dbs.drop_last(), lock);
        let tail = warns_of_db(dbs.last(), lock);
        assert(spec_warnings(dbs, lock) == rec + tail);
        assert forall|k: int|
            0 <= k < spec_warnings(dbs, lock).len() implies ((#[trigger] spec_warnings(
            dbs,
            lock,
        )[k]).advisory matches Some(m) && m.id != id) by {
            if k < rec.len() {
                assert(spec_warnings(dbs, lock)[k] == rec[k]);
            } else {
                assert(spec_warnings(dbs, lock)[k] == tail[k - rec.len()]);
            }
        }
    }
}

pub proof fn lemma_count_vuln_findings_skipped(
    krates: Seq<PackageView>,
    vs: Seq<VulnerabilityView>,
    p: PackageView,
    id: Seq<char>,
    rs0: VersionsView,
)
    requires
        krates_distinct(krates),
        graph_resolves(krates, p),
        p.version.pre.len() > 0,
        spec_skip_range(p.version, rs0) is Some,
        forall|k: int| 0 <= k < vs.len() ==> graph_resolves(krates, (#[trigger] vs[k]).package),
        forall|k: int|
            0 <= k < vs.len() && (#[trigger] vs[k]).advisory.id == id ==> vs[k].versions == rs0,
    ensures
        count_seq(vuln_findings(vs), finding_for(krates, graph_index(krates, p), id)) == 0,
        count_seq(
            vuln_findings(vs),
            skipped_finding_for(
                krates,
                graph_index(krates, p),
                id,
                spec_skip_range(p.version, rs0)->Some_0,
            ),
        ) == count_seq(vs, vuln_for(p, id)),
    decreases vs.len(),
{
    if vs.len() > 0 {
        assert(forall|k: int| 0 <= k < vs.drop_last().len() ==> #[trigger] vs.drop_last()[k] == vs[k]);
        lemma_count_vuln_findings_skipped(krates, vs.drop_last(), p, id, rs0);
        let i = graph_index(krates, p);
        let r0 = spec_skip_range(p.version, rs0)->Some_0;
        let v = vs.last();
        let f = FindingView { package: v.package, advisory: v.advisory, versions: Some(v.versions) };
        assert(vuln_findings(vs) == vuln_findings(vs.drop_last()).push(f));
        assert(vuln_findings(vs).drop_last() =~= vuln_findings(vs.drop_last()));
        assert(vuln_findings(vs).last() == f);
        assert(graph_resolves(krates, vs[vs.len() - 1].package));
        lemma_same_index_same_identity(krates, p, v.package);
        if pkg_id_eq(v.package, p) && v.advisory.id == id {
            assert(vs[vs.len() - 1].advisory.id == id);
            assert(v.versions == rs0);
            assert(version_eq(v.package.version, p.version));
            assert(f.package.version.pre.len() > 0);
            assert(spec_skip_range(f.package.version, rs0) == spec_skip_range(p.version, rs0));
            assert(finding_skip(f) == Some(r0));
            assert(!finding_for(krates, i, id)(f));
            assert(skipped_finding_for(krates, i, id, r0)(f));
        } else {
            assert(!finding_for(krates, i, id)(f)) by {
                if finding_for(krates, i, id)(f) {
                    assert(pkg_id_eq(v.package, p));
                    assert(false);
                }
            }
            assert(!skipped_finding_for(krates, i, id, r0)(f)) by {
                if skipped_finding_for(krates, i, id, r0)(f) {
                    assert(pkg_id_eq(v.package, p));
                    assert(false);
                }
            }
            assert(!vuln_for(p, id)(v));
        }
    }
}

pub proof fn lemma_count_warn_findings_no_id(
    krates: Seq<PackageView>,
    ws: Seq<WarningView>,
    i: int,
    id: Seq<char>,
    r0: Predicate,
)
    requires
        forall|k: int|
            0 <= k < ws.len() ==> ((#[trigger] ws[k]).advisory matches Some(m) ==> m.id != id),
    ensures
        count_seq(warning_findings(ws), finding_for(krates, i, id)) == 0,
        count_seq(warning_findings(ws), skipped_finding_for(krates, i, id, r0)) == 0,
    decreases ws.len(),
{
    if ws.len() > 0 {
        assert(forall|k: int| 0 <= k < ws.drop_last().len() ==> #[trigger] ws.drop_last()[k] == ws[k]);
        lemma_count_warn_findings_no_id(krates, ws.drop_last(), i, id, r0);
        match ws.last().advisory {
            Some(a) => {
                let f = FindingView {
                    package: ws.last().package,
                    advisory: a,
                    versions: ws.last().versions,
                };
                assert(warning_findings(ws) == warning_findings(ws.drop_last()).push(f));
                assert(warning_findings(ws).drop_last() =~= warning_findings(ws.drop_last()));
                assert(warning_findings(ws).last() == f);
                assert(ws[ws.len() - 1].advisory matches Some(m) ==> m.id != id);
                assert(f.advisory.id != id);
                assert(!finding_for(krates, i, id)(f));
                assert(!skipped_finding_for(krates, i, id, r0)(f));
            },
            None => {
                assert(warning_findings(ws) == warning_findings(ws.drop_last()));
            },
        }
    }
}

/// For a lockfile package whose pre-release version the workaround catches
/// (its stripped triple matches a declared range of the one advisory carrying
/// this identifier), one run emits no advisory diagnostic for the pair at
/// all, and exactly one pre-release notice for it, referencing the range the
/// reverse walk selects: the highest-declared matching patched range, else
/// the highest-declared matching unaffected range.
pub proof fn lemma_prerelease_suppresses_vulnerability(
    krates: Seq<PackageView>,
    cfg: ValidConfigView,
    dbs: Seq<Seq<AdvisoryView>>,
    lock: Seq<PackageView>,
    report: ReportView,
    yanked: Result<Seq<PackageView>, Seq<char>>,
    p: PackageView,
    adv: AdvisoryView,
)
    requires
        krates_distinct(krates),
        lockfile_distinct(lock),
        dbset_ids_distinct(dbs),
        report.vulnerabilities == spec_vulns(dbs, lock),
        report.warnings == spec_warnings(dbs, lock),
        lock_has(lock, p),
        p.version.pre.len() > 0,
        spec_skip_range(p.version, adv.versions) is Some,
        exists|d: int, a: int|
            0 <= d < dbs.len() && 0 <= a < dbs[d].len() && #[trigger] dbs[d][a] == adv,
        adv.metadata.kind == AdvisoryKind::Vulnerability,
        adv_matches_pkg(adv, p),
        graph_resolves(krates, p),
        all_findings_resolve(krates, spec_findings(report)),
    ensures
        count_diags(
            spec_check_output(krates, cfg, dbs, report, yanked),
            advisory_diag_at(graph_index(krates, p), adv.metadata.id),
        ) == 0,
        count_diags(
            spec_check_output(krates, cfg, dbs, report, yanked),
            prerelease_diag_at(
                graph_index(krates, p),
                adv.metadata.id,
                spec_skip_range(p.version, adv.versions)->Some_0,
            ),
        ) == 1,
{
    let id = adv.metadata.id;
    let i = graph_index(krates, p);
    let r0 = spec_skip_range(p.version, adv.versions)->Some_0;
    let fs = spec_findings(report);
    let vf = vuln_findings(report.vulnerabilities);
    let wf = warning_findings(report.warnings);
    let pred_a = advisory_diag_at(i, id);
    let pred_s = prerelease_diag_at(i, id, r0);
    let (d0, a0) = choose|d: int, a: int|
        0 <= d < dbs.len() && 0 <= a < dbs[d].len() && #[trigger] dbs[d][a] == adv;

    assert forall|d: int, a: int|
        0 <= d < dbs.len() && 0 <= a < dbs[d].len() && (#[trigger] dbs[d][a]).metadata.id
            == id implies (dbs[d][a].versions == adv.versions && adv_matches_pkg(dbs[d][a], p)
        && dbs[d][a].metadata.kind == AdvisoryKind::Vulnerability) by {
        if d != d0 || a != a0 {
            assert(dbs[d][a].metadata.id != dbs[d0][a0].metadata.id);
            assert(false);
        }
    }
    assert(dbs[d0][a0].metadata.id == id);
    lemma_count_spec_vulns_one(dbs, lock, p, id);
    lemma_spec_vulns_carry(dbs, lock, id, adv.versions);
    lemma_spec_warnings_no_id(dbs, lock, id);

    assert(fs == vf + wf);
    lemma_vuln_findings_index(report.vulnerabilities);
    assert forall|k: int|
        0 <= k < report.vulnerabilities.len() implies graph_resolves(
        krates,
        (#[trigger] report.vulnerabilities[k]).package,
    ) by {
        assert(fs[k] == vf[k]);
        assert(graph_resolves(krates, fs[k].package));
    }
    lemma_count_vuln_findings_skipped(krates, report.vulnerabilities, p, id, adv.versions);
    lemma_count_warn_findings_no_id(krates, report.warnings, i, id, r0);
    lemma_count_seq_concat(vf, wf, finding_for(krates, i, id));
    lemma_count_seq_concat(vf, wf, skipped_finding_for(krates, i, id, r0));
    lemma_count_finding_diags(krates, cfg, fs, i, id);
    lemma_count_finding_diags_skipped(krates, cfg, fs, i, id, r0);

    let a_ = finding_diags(krates, cfg, fs);
    let b_ = spec_yank_output(krates, cfg, yanked);
    let c_ = unknown_diags(dbs, cfg.ignore);
    let d_ = unused_diags(spec_hits(cfg, fs), cfg.ignore);
    assert(spec_check_output(krates, cfg, dbs, report, yanked) == a_ + b_ + c_ + d_);
    lemma_count_diags_concat(a_ + b_ + c_, d_, pred_a);
    lemma_count_diags_concat(a_ + b_, c_, pred_a);
    lemma_count_diags_concat(a_, b_, pred_a);
    lemma_count_diags_concat(a_ + b_ + c_, d_, pred_s);
    lemma_count_diags_concat(a_ + b_, c_, pred_s);
    lemma_count_diags_concat(a_, b_, pred_s);
    lemma_yank_output_shape(krates, cfg, yanked);
    lemma_count_diags_zero(b_, pred_a);
    lemma_count_diags_zero(b_, pred_s);
    lemma_unknown_diags_shape(dbs, cfg.ignore);
    lemma_count_diags_zero(c_, pred_a);
    lemma_count_diags_zero(c_, pred_s);
    lemma_unused_diags_shape(spec_hits(cfg, fs), cfg.ignore);
    lemma_count_diags_zero(d_, pred_a);
    lemma_count_diags_zero(d_, pred_s);
}

} // verus!
