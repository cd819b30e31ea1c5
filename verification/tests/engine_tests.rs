use cargo_deny::advisory::{Advisory, AdvisoryKind, Database, DbSet, Metadata, Versions};
use cargo_deny::cfg::{IgnoreEntry, LintLevel, ValidConfig};
use cargo_deny::diag::{CheckCtx, Diagnostic, ErrorSink};
use cargo_deny::engine::{check, AuditReporter, NoneReporter};
use cargo_deny::output::{parse_level, level_label, use_color, Color, Format, LevelFilter};
use cargo_deny::package::{krate_for_pkg, Krates, Package, PrunedLockfile, Source};
use cargo_deny::report::Report;
use cargo_deny::version::{Op, Predicate, Version};
use cargo_deny::yank::{find_yanked, registry_packages, version_is_yanked, FetchError, IndexEntry};

fn ver(major: u64, minor: u64, patch: u64) -> Version {
    Version { major, minor, patch, pre: String::new() }
}

fn ver_pre(major: u64, minor: u64, patch: u64, pre: &str) -> Version {
    Version { major, minor, patch, pre: pre.to_owned() }
}

fn pkg(name: &str, v: Version, source: Source) -> Package {
    Package { name: name.to_owned(), version: v, source }
}

fn vuln_advisory(id: &str, package: &str, patched: Vec<Predicate>) -> Advisory {
    Advisory {
        metadata: Metadata {
            id: id.to_owned(),
            title: "a vulnerability".to_owned(),
            description: "description".to_owned(),
            package: package.to_owned(),
            kind: AdvisoryKind::Vulnerability,
        },
        versions: Versions { patched, unaffected: Vec::new() },
    }
}

fn ge(major: u64, minor: u64, patch: u64) -> Predicate {
    Predicate { op: Op::GreaterEq, major, minor, patch }
}

fn one_db(advisories: Vec<Advisory>) -> DbSet {
    DbSet { dbs: vec![Database { advisories }] }
}

fn ctx_for(krates: Vec<Package>, ignore: Vec<IgnoreEntry>, yanked: LintLevel) -> CheckCtx {
    CheckCtx { krates: Krates { krates }, cfg: ValidConfig { ignore, yanked } }
}

fn no_reporter() -> Option<NoneReporter> {
    None
}

struct CollectingReporter {
    blobs: Vec<serde_json::Value>,
}

impl AuditReporter for CollectingReporter {
    fn report(&mut self, report: serde_json::Value) {
        self.blobs.push(report);
    }
}

impl AuditReporter for &mut CollectingReporter {
    fn report(&mut self, report: serde_json::Value) {
        self.blobs.push(report);
    }
}

#[test]
fn parse_level_accepts_each_name() {
    assert_eq!(parse_level("off").unwrap(), LevelFilter::Off);
    assert_eq!(parse_level("error").unwrap(), LevelFilter::Error);
    assert_eq!(parse_level("warn").unwrap(), LevelFilter::Warn);
    assert_eq!(parse_level("info").unwrap(), LevelFilter::Info);
    assert_eq!(parse_level("debug").unwrap(), LevelFilter::Debug);
    assert_eq!(parse_level("trace").unwrap(), LevelFilter::Trace);
}

#[test]
fn parse_level_ignores_case() {
    assert_eq!(parse_level("WARN").unwrap(), LevelFilter::Warn);
    assert_eq!(parse_level("Trace").unwrap(), LevelFilter::Trace);
    assert_eq!(parse_level("dEbUg").unwrap(), LevelFilter::Debug);
}

#[test]
fn parse_level_rejects_unknown_names() {
    let err = parse_level("verbose").unwrap_err();
    assert_eq!(err.level, "verbose");
    assert!(parse_level("").is_err());
    assert!(parse_level("warning").is_err());
}

#[test]
fn level_labels_are_upper_case() {
    assert_eq!(level_label(LevelFilter::Error), "ERROR");
    assert_eq!(level_label(LevelFilter::Warn), "WARN");
    assert_eq!(level_label(LevelFilter::Off), "OFF");
}

#[test]
fn color_choice_decides_from_terminal_only_for_auto() {
    assert!(use_color(Color::Auto, true));
    assert!(!use_color(Color::Auto, false));
    assert!(use_color(Color::Always, false));
    assert!(!use_color(Color::Never, true));
    assert_eq!(Format::Human, Format::Human);
    assert_ne!(Format::Human, Format::Json);
}

#[test]
fn predicate_never_matches_prerelease_versions() {
    let p = ge(1, 0, 0);
    assert!(p.matches(&ver(1, 2, 0)));
    assert!(!p.matches(&ver_pre(1, 2, 0, "beta.1")));
    assert!(p.matches_triple(1, 2, 0));
}

#[test]
fn generate_classifies_by_kind() {
    let mut unmaintained = vuln_advisory("RUSTSEC-0000-0002", "pkg-b", vec![]);
    unmaintained.metadata.kind = AdvisoryKind::Unmaintained;
    let dbs = one_db(vec![vuln_advisory("RUSTSEC-0000-0001", "pkg-a", vec![ge(1, 2, 0)]), unmaintained]);
    let lockfile = PrunedLockfile {
        packages: vec![
            pkg("pkg-a", ver(1, 0, 0), Source::Registry),
            pkg("pkg-b", ver(2, 0, 0), Source::Registry),
        ],
    };
    let report = Report::generate(&dbs, &lockfile, false);
    assert_eq!(report.vulnerabilities.len(), 1);
    assert_eq!(report.vulnerabilities[0].package.name, "pkg-a");
    assert_eq!(report.warnings.len(), 1);
    assert_eq!(report.warnings[0].package.name, "pkg-b");
    assert_eq!(report.serialized_reports.len(), 0);
}

#[test]
fn generate_skips_patched_versions() {
    let dbs = one_db(vec![vuln_advisory("RUSTSEC-0000-0001", "pkg-a", vec![ge(1, 2, 0)])]);
    let lockfile = PrunedLockfile { packages: vec![pkg("pkg-a", ver(1, 2, 0), Source::Registry)] };
    let report = Report::generate(&dbs, &lockfile, false);
    assert_eq!(report.vulnerabilities.len(), 0);
    assert_eq!(report.warnings.len(), 0);
}

#[test]
fn vulnerable_registry_package_yields_one_vulnerability_diagnostic() {
    // A lockfile package affected below the patched range: exactly one
    // advisory diagnostic, no pre-release notice, no ignore activity.
    let dbs = one_db(vec![vuln_advisory("RUSTSEC-0000-0001", "pkg-a", vec![ge(1, 2, 0)])]);
    let lockfile = PrunedLockfile { packages: vec![pkg("pkg-a", ver(1, 0, 0), Source::Registry)] };
    let ctx = ctx_for(vec![pkg("pkg-a", ver(1, 0, 0), Source::Registry)], vec![], LintLevel::Warn);
    let report = Report::generate(&dbs, &lockfile, false);
    let mut sink = ErrorSink::new();
    check(&ctx, &dbs, report, Ok(Vec::new()), no_reporter(), &mut sink).unwrap();
    assert_eq!(sink.diags.len(), 1);
    match &sink.diags[0] {
        Diagnostic::Advisory { krate_index, advisory_id, ignore_index } => {
            assert_eq!(*krate_index, 0);
            assert_eq!(advisory_id, "RUSTSEC-0000-0001");
            assert!(ignore_index.is_none());
        }
        other => panic!("expected an advisory diagnostic, got {other:?}"),
    }
}

#[test]
fn prerelease_match_replaces_the_vulnerability_diagnostic() {
    // The pre-release version is reported vulnerable, but the stripped
    // version matches the patched range, so the skip notice replaces it.
    let dbs = one_db(vec![vuln_advisory("RUSTSEC-0000-0001", "pkg-a", vec![ge(1, 2, 0)])]);
    let lockfile =
        PrunedLockfile { packages: vec![pkg("pkg-a", ver_pre(1, 2, 0, "beta.1"), Source::Registry)] };
    let ctx = ctx_for(
        vec![pkg("pkg-a", ver_pre(1, 2, 0, "beta.1"), Source::Registry)],
        vec![],
        LintLevel::Warn,
    );
    let report = Report::generate(&dbs, &lockfile, false);
    assert_eq!(report.vulnerabilities.len(), 1);
    let mut sink = ErrorSink::new();
    check(&ctx, &dbs, report, Ok(Vec::new()), no_reporter(), &mut sink).unwrap();
    assert_eq!(sink.diags.len(), 1);
    match &sink.diags[0] {
        Diagnostic::PrereleaseSkipped { krate_index, advisory_id, range } => {
            assert_eq!(*krate_index, 0);
            assert_eq!(advisory_id, "RUSTSEC-0000-0001");
            assert_eq!(*range, ge(1, 2, 0));
        }
        other => panic!("expected a pre-release notice, got {other:?}"),
    }
}

#[test]
fn prerelease_walk_reports_the_highest_declared_matching_range() {
    // Ranges are declared ascending; the reverse walk must reference the
    // most recently declared range that matches the stripped version.
    let dbs = one_db(vec![vuln_advisory(
        "RUSTSEC-0000-0001",
        "pkg-a",
        vec![ge(1, 0, 0), ge(1, 2, 0)],
    )]);
    let lockfile =
        PrunedLockfile { packages: vec![pkg("pkg-a", ver_pre(1, 2, 0, "rc.1"), Source::Registry)] };
    let ctx = ctx_for(
        vec![pkg("pkg-a", ver_pre(1, 2, 0, "rc.1"), Source::Registry)],
        vec![],
        LintLevel::Warn,
    );
    let report = Report::generate(&dbs, &lockfile, false);
    let mut sink = ErrorSink::new();
    check(&ctx, &dbs, report, Ok(Vec::new()), no_reporter(), &mut sink).unwrap();
    match &sink.diags[0] {
        Diagnostic::PrereleaseSkipped { range, .. } => assert_eq!(*range, ge(1, 2, 0)),
        other => panic!("expected a pre-release notice, got {other:?}"),
    }
}

#[test]
fn ignored_advisory_sets_the_configured_bit_and_no_unused_notice() {
    let dbs = one_db(vec![vuln_advisory("RUSTSEC-0000-0001", "pkg-a", vec![ge(1, 2, 0)])]);
    let lockfile = PrunedLockfile { packages: vec![pkg("pkg-a", ver(1, 0, 0), Source::Registry)] };
    let ctx = ctx_for(
        vec![pkg("pkg-a", ver(1, 0, 0), Source::Registry)],
        vec![IgnoreEntry { value: "RUSTSEC-0000-0001".to_owned(), reason: None }],
        LintLevel::Warn,
    );
    let report = Report::generate(&dbs, &lockfile, false);
    let mut sink = ErrorSink::new();
    check(&ctx, &dbs, report, Ok(Vec::new()), no_reporter(), &mut sink).unwrap();
    assert_eq!(sink.diags.len(), 1);
    match &sink.diags[0] {
        Diagnostic::Advisory { ignore_index, .. } => assert_eq!(*ignore_index, Some(0)),
        other => panic!("expected an advisory diagnostic, got {other:?}"),
    }
}

#[test]
fn unused_ignore_entry_yields_exactly_one_notice() {
    // The entry names a known advisory that no finding matches: it is not
    // unknown, but it is unused.
    let dbs = one_db(vec![vuln_advisory("RUSTSEC-0000-0001", "pkg-a", vec![ge(1, 2, 0)])]);
    let lockfile = PrunedLockfile { packages: vec![pkg("pkg-b", ver(1, 0, 0), Source::Registry)] };
    let ctx = ctx_for(
        vec![pkg("pkg-b", ver(1, 0, 0), Source::Registry)],
        vec![IgnoreEntry { value: "RUSTSEC-0000-0001".to_owned(), reason: None }],
        LintLevel::Warn,
    );
    let report = Report::generate(&dbs, &lockfile, false);
    let mut sink = ErrorSink::new();
    check(&ctx, &dbs, report, Ok(Vec::new()), no_reporter(), &mut sink).unwrap();
    assert_eq!(sink.diags.len(), 1);
    match &sink.diags[0] {
        Diagnostic::UnusedIgnore { ignore_index, advisory_id } => {
            assert_eq!(*ignore_index, 0);
            assert_eq!(advisory_id, "RUSTSEC-0000-0001");
        }
        other => panic!("expected an unused-ignore notice, got {other:?}"),
    }
}

#[test]
fn unknown_ignore_entry_yields_exactly_one_notice() {
    // An identifier no database knows is flagged once, and also never
    // matched, so the unused notice follows it.
    let dbs = one_db(vec![vuln_advisory("RUSTSEC-0000-0001", "pkg-a", vec![ge(1, 2, 0)])]);
    let lockfile = PrunedLockfile { packages: vec![] };
    let ctx = ctx_for(
        vec![],
        vec![IgnoreEntry { value: "RUSTSEC-9999-9999".to_owned(), reason: None }],
        LintLevel::Warn,
    );
    let report = Report::generate(&dbs, &lockfile, false);
    let mut sink = ErrorSink::new();
    check(&ctx, &dbs, report, Ok(Vec::new()), no_reporter(), &mut sink).unwrap();
    assert_eq!(sink.diags.len(), 2);
    match &sink.diags[0] {
        Diagnostic::UnknownAdvisory { ignore_index, advisory_id } => {
            assert_eq!(*ignore_index, 0);
            assert_eq!(advisory_id, "RUSTSEC-9999-9999");
        }
        other => panic!("expected an unknown-advisory notice, got {other:?}"),
    }
    assert!(matches!(&sink.diags[1], Diagnostic::UnusedIgnore { ignore_index: 0, .. }));
}

#[test]
fn index_failure_is_gated_by_the_configured_severity() {
    let dbs = one_db(vec![]);
    let lockfile = PrunedLockfile { packages: vec![] };
    let report = Report::generate(&dbs, &lockfile, false);
    let ctx = ctx_for(vec![], vec![], LintLevel::Warn);
    let mut sink = ErrorSink::new();
    check(
        &ctx,
        &dbs,
        report,
        Err(FetchError { message: "connection refused".to_owned() }),
        no_reporter(),
        &mut sink,
    )
    .unwrap();
    assert_eq!(sink.diags.len(), 1);
    match &sink.diags[0] {
        Diagnostic::IndexFailure { message } => assert_eq!(message, "connection refused"),
        other => panic!("expected an index-failure notice, got {other:?}"),
    }

    let report = Report::generate(&dbs, &lockfile, false);
    let ctx = ctx_for(vec![], vec![], LintLevel::Allow);
    let mut sink = ErrorSink::new();
    check(
        &ctx,
        &dbs,
        report,
        Err(FetchError { message: "connection refused".to_owned() }),
        no_reporter(),
        &mut sink,
    )
    .unwrap();
    assert_eq!(sink.diags.len(), 0);
}

#[test]
fn yanked_package_yields_a_withdrawal_diagnostic() {
    let dbs = one_db(vec![]);
    let lockfile = PrunedLockfile { packages: vec![] };
    let report = Report::generate(&dbs, &lockfile, false);
    let ctx = ctx_for(
        vec![pkg("pkg-a", ver(1, 0, 0), Source::Registry), pkg("pkg-b", ver(2, 0, 0), Source::Registry)],
        vec![],
        LintLevel::Warn,
    );
    let mut sink = ErrorSink::new();
    check(
        &ctx,
        &dbs,
        report,
        Ok(vec![pkg("pkg-b", ver(2, 0, 0), Source::Registry)]),
        no_reporter(),
        &mut sink,
    )
    .unwrap();
    assert_eq!(sink.diags.len(), 1);
    assert!(matches!(&sink.diags[0], Diagnostic::Yanked { krate_index: 1 }));
}

#[test]
fn unresolvable_finding_aborts_with_the_sink_untouched() {
    let dbs = one_db(vec![vuln_advisory("RUSTSEC-0000-0001", "pkg-a", vec![ge(1, 2, 0)])]);
    let lockfile = PrunedLockfile { packages: vec![pkg("pkg-a", ver(1, 0, 0), Source::Registry)] };
    // The graph knows a different version, so the finding cannot resolve.
    let ctx = ctx_for(vec![pkg("pkg-a", ver(1, 1, 0), Source::Registry)], vec![], LintLevel::Warn);
    let report = Report::generate(&dbs, &lockfile, false);
    let mut sink = ErrorSink::new();
    let err = check(&ctx, &dbs, report, Ok(Vec::new()), no_reporter(), &mut sink).unwrap_err();
    assert_eq!(err.package.name, "pkg-a");
    assert_eq!(err.package.version.major, 1);
    assert_eq!(err.package.version.minor, 0);
    assert_eq!(sink.diags.len(), 0);
}

#[test]
fn two_runs_on_equal_inputs_emit_identical_streams() {
    let dbs = one_db(vec![vuln_advisory("RUSTSEC-0000-0001", "pkg-a", vec![ge(1, 2, 0)])]);
    let lockfile = PrunedLockfile { packages: vec![pkg("pkg-a", ver(1, 0, 0), Source::Registry)] };
    let ctx = ctx_for(
        vec![pkg("pkg-a", ver(1, 0, 0), Source::Registry)],
        vec![IgnoreEntry { value: "RUSTSEC-0000-0002".to_owned(), reason: None }],
        LintLevel::Warn,
    );
    let mut first = ErrorSink::new();
    let report = Report::generate(&dbs, &lockfile, false);
    check(&ctx, &dbs, report, Ok(Vec::new()), no_reporter(), &mut first).unwrap();
    let mut second = ErrorSink::new();
    let report = Report::generate(&dbs, &lockfile, false);
    check(&ctx, &dbs, report, Ok(Vec::new()), no_reporter(), &mut second).unwrap();
    assert_eq!(first.diags.len(), second.diags.len());
    for (a, b) in first.diags.iter().zip(second.diags.iter()) {
        assert_eq!(format!("{a:?}"), format!("{b:?}"));
    }
}

#[test]
fn non_registry_packages_are_never_yank_candidates() {
    let lockfile = PrunedLockfile {
        packages: vec![
            pkg("from-git", ver(1, 0, 0), Source::Git),
            pkg("from-path", ver(1, 0, 0), Source::Path),
            pkg("from-registry", ver(1, 0, 0), Source::Registry),
        ],
    };
    let candidates = registry_packages(&lockfile);
    assert_eq!(candidates.len(), 1);
    assert_eq!(candidates[0].name, "from-registry");

    // Even an index answer that marks the same name and version withdrawn
    // cannot surface the git- or path-sourced packages: they are not asked
    // about at all.
    let lookups = vec![Some(vec![IndexEntry { version: ver(1, 0, 0), yanked: true }])];
    let yanked = find_yanked(&candidates, &lookups);
    assert_eq!(yanked.len(), 1);
    assert_eq!(yanked[0].name, "from-registry");
    assert!(matches!(yanked[0].source, Source::Registry));
}

#[test]
fn version_withdrawal_requires_the_exact_version() {
    let entries = vec![
        IndexEntry { version: ver(1, 0, 0), yanked: false },
        IndexEntry { version: ver(1, 0, 1), yanked: true },
    ];
    assert!(!version_is_yanked(&ver(1, 0, 0), &entries));
    assert!(version_is_yanked(&ver(1, 0, 1), &entries));
    assert!(!version_is_yanked(&ver(1, 0, 2), &entries));
    // A pre-release differs from its plain release.
    assert!(!version_is_yanked(&ver_pre(1, 0, 1, "beta.1"), &entries));
}

#[test]
fn unknown_candidate_is_not_reported_withdrawn() {
    let candidates = vec![pkg("pkg-a", ver(1, 0, 0), Source::Registry)];
    let lookups: Vec<Option<Vec<IndexEntry>>> = vec![None];
    let yanked = find_yanked(&candidates, &lookups);
    assert_eq!(yanked.len(), 0);
}

#[test]
fn graph_lookup_is_by_name_and_version() {
    let krates = Krates {
        krates: vec![
            pkg("pkg-a", ver(1, 0, 0), Source::Registry),
            pkg("pkg-a", ver(2, 0, 0), Source::Registry),
        ],
    };
    assert_eq!(krate_for_pkg(&krates, &pkg("pkg-a", ver(2, 0, 0), Source::Git)), Some(1));
    assert_eq!(krate_for_pkg(&krates, &pkg("pkg-a", ver(3, 0, 0), Source::Registry)), None);
    assert_eq!(krate_for_pkg(&krates, &pkg("pkg-b", ver(1, 0, 0), Source::Registry)), None);
}

#[test]
fn serialized_blobs_are_replayed_in_order_to_the_reporter() {
    let dbs = DbSet {
        dbs: vec![
            Database { advisories: vec![vuln_advisory("RUSTSEC-0000-0001", "pkg-a", vec![ge(1, 2, 0)])] },
            Database { advisories: vec![vuln_advisory("RUSTSEC-0000-0002", "pkg-a", vec![ge(9, 0, 0)])] },
        ],
    };
    let lockfile = PrunedLockfile { packages: vec![pkg("pkg-a", ver(1, 0, 0), Source::Registry)] };
    let report = Report::generate(&dbs, &lockfile, true);
    assert_eq!(report.serialized_reports.len(), 2);
    let ctx = ctx_for(vec![pkg("pkg-a", ver(1, 0, 0), Source::Registry)], vec![], LintLevel::Warn);
    let mut sink = ErrorSink::new();
    let mut collected = CollectingReporter { blobs: Vec::new() };
    check(&ctx, &dbs, report, Ok(Vec::new()), Some(&mut collected), &mut sink).unwrap();
    assert_eq!(collected.blobs.len(), 2);
    assert_eq!(
        collected.blobs[0],
        serde_json::Value::from(vec!["RUSTSEC-0000-0001".to_owned()])
    );
    assert_eq!(
        collected.blobs[1],
        serde_json::Value::from(vec!["RUSTSEC-0000-0002".to_owned()])
    );
}

#[test]
fn none_reporter_satisfies_the_interface() {
    let mut r = NoneReporter;
    r.report(serde_json::Value::Null);
}

#[test]
fn range_operators_order_versions_lexicographically() {
    let lt = Predicate { op: Op::Less, major: 1, minor: 2, patch: 3 };
    assert!(lt.matches(&ver(1, 2, 2)));
    assert!(lt.matches(&ver(0, 9, 9)));
    assert!(!lt.matches(&ver(1, 2, 3)));
    let le = Predicate { op: Op::LessEq, major: 1, minor: 2, patch: 3 };
    assert!(le.matches(&ver(1, 2, 3)));
    assert!(!le.matches(&ver(1, 2, 4)));
    let gt = Predicate { op: Op::Greater, major: 1, minor: 2, patch: 3 };
    assert!(gt.matches(&ver(1, 3, 0)));
    assert!(!gt.matches(&ver(1, 2, 3)));
    let eq = Predicate { op: Op::Exact, major: 1, minor: 2, patch: 3 };
    assert!(eq.matches(&ver(1, 2, 3)));
    assert!(!eq.matches(&ver(1, 2, 4)));
}

#[test]
fn has_advisory_searches_every_database() {
    let dbs = DbSet {
        dbs: vec![
            Database { advisories: vec![vuln_advisory("RUSTSEC-0000-0001", "pkg-a", vec![])] },
            Database { advisories: vec![vuln_advisory("RUSTSEC-0000-0002", "pkg-b", vec![])] },
        ],
    };
    assert!(dbs.has_advisory(&"RUSTSEC-0000-0001".to_owned()));
    assert!(dbs.has_advisory(&"RUSTSEC-0000-0002".to_owned()));
    assert!(!dbs.has_advisory(&"RUSTSEC-0000-0003".to_owned()));
}

#[test]
fn unsound_advisory_is_a_warning_with_its_ranges() {
    let mut unsound = vuln_advisory("RUSTSEC-0000-0001", "pkg-a", vec![ge(2, 0, 0)]);
    unsound.metadata.kind = AdvisoryKind::Unsound;
    let dbs = one_db(vec![unsound]);
    let lockfile = PrunedLockfile { packages: vec![pkg("pkg-a", ver(1, 0, 0), Source::Registry)] };
    let report = Report::generate(&dbs, &lockfile, false);
    assert_eq!(report.vulnerabilities.len(), 0);
    assert_eq!(report.warnings.len(), 1);
    let w = &report.warnings[0];
    assert!(w.advisory.is_some());
    assert!(w.versions.is_some());

    // The engine reports it as an ordinary advisory diagnostic.
    let ctx = ctx_for(vec![pkg("pkg-a", ver(1, 0, 0), Source::Registry)], vec![], LintLevel::Warn);
    let mut sink = ErrorSink::new();
    check(&ctx, &dbs, report, Ok(Vec::new()), no_reporter(), &mut sink).unwrap();
    assert_eq!(sink.diags.len(), 1);
    assert!(matches!(&sink.diags[0], Diagnostic::Advisory { krate_index: 0, .. }));
}

#[test]
fn warning_prerelease_is_skipped_like_a_vulnerability() {
    let mut unmaintained = vuln_advisory("RUSTSEC-0000-0001", "pkg-a", vec![ge(1, 2, 0)]);
    unmaintained.metadata.kind = AdvisoryKind::Unmaintained;
    let dbs = one_db(vec![unmaintained]);
    let lockfile =
        PrunedLockfile { packages: vec![pkg("pkg-a", ver_pre(1, 2, 0, "alpha"), Source::Registry)] };
    let ctx = ctx_for(
        vec![pkg("pkg-a", ver_pre(1, 2, 0, "alpha"), Source::Registry)],
        vec![],
        LintLevel::Warn,
    );
    let report = Report::generate(&dbs, &lockfile, false);
    let mut sink = ErrorSink::new();
    check(&ctx, &dbs, report, Ok(Vec::new()), no_reporter(), &mut sink).unwrap();
    assert_eq!(sink.diags.len(), 1);
    assert!(matches!(&sink.diags[0], Diagnostic::PrereleaseSkipped { .. }));
}

#[test]
fn unaffected_range_is_walked_when_no_patched_range_matches() {
    let advisory = Advisory {
        metadata: Metadata {
            id: "RUSTSEC-0000-0001".to_owned(),
            title: "a vulnerability".to_owned(),
            description: "description".to_owned(),
            package: "pkg-a".to_owned(),
            kind: AdvisoryKind::Vulnerability,
        },
        versions: Versions {
            patched: vec![ge(9, 0, 0)],
            unaffected: vec![Predicate { op: Op::Less, major: 0, minor: 2, patch: 0 }],
        },
    };
    let dbs = one_db(vec![advisory]);
    let lockfile =
        PrunedLockfile { packages: vec![pkg("pkg-a", ver_pre(0, 1, 0, "beta"), Source::Registry)] };
    let ctx = ctx_for(
        vec![pkg("pkg-a", ver_pre(0, 1, 0, "beta"), Source::Registry)],
        vec![],
        LintLevel::Warn,
    );
    let report = Report::generate(&dbs, &lockfile, false);
    let mut sink = ErrorSink::new();
    check(&ctx, &dbs, report, Ok(Vec::new()), no_reporter(), &mut sink).unwrap();
    assert_eq!(sink.diags.len(), 1);
    match &sink.diags[0] {
        Diagnostic::PrereleaseSkipped { range, .. } => {
            assert_eq!(*range, Predicate { op: Op::Less, major: 0, minor: 2, patch: 0 });
        }
        other => panic!("expected a pre-release notice, got {other:?}"),
    }
}
