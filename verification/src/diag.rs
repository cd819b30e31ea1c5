use vstd::prelude::*;
use crate::advisory::Metadata;
use crate::cfg::{find_ignore, has_ignore, IgnoreEntry, ValidConfig};
use crate::package::Krates;
use crate::version::Predicate;
use crate::yank::FetchError;

verus! {

/// One unit pushed to the diagnostic sink. The engine constructs one for
/// each condition it reports; rendering them is the presentation layer's
/// business.
#[derive(Debug)]
pub enum Diagnostic {
    /// An advisory matched a graph node. `ignore_index` is the position of
    /// the configured ignore entry for the advisory, if there is one.
    Advisory { krate_index: usize, advisory_id: String, ignore_index: Option<usize> },
    /// A pre-release version matched a declared range once its label was
    /// stripped, so the advisory finding was skipped in favour of this
    /// notice, referencing the matching range.
    PrereleaseSkipped { krate_index: usize, advisory_id: String, range: Predicate },
    /// The registry has withdrawn the exact version of this graph node.
    Yanked { krate_index: usize },
    /// The registry index could not be consulted at all.
    IndexFailure { message: String },
    /// An ignore entry names an advisory no loaded database knows.
    UnknownAdvisory { ignore_index: usize, advisory_id: String },
    /// An ignore entry was never matched by any finding of this run.
    UnusedIgnore { ignore_index: usize, advisory_id: String },
}

/// The mathematical value of a [`Diagnostic`].
#[verifier::ext_equal]
pub enum DiagnosticView {
    Advisory { krate_index: int, advisory_id: Seq<char>, ignore_index: Option<int> },
    PrereleaseSkipped { krate_index: int, advisory_id: Seq<char>, range: Predicate },
    Yanked { krate_index: int },
    IndexFailure { message: Seq<char> },
    UnknownAdvisory { ignore_index: int, advisory_id: Seq<char> },
    UnusedIgnore { ignore_index: int, advisory_id: Seq<char> },
}

impl View for Diagnostic {
    type V = DiagnosticView;

    open spec fn view(&self) -> DiagnosticView {
        match self {
            Diagnostic::Advisory { krate_index, advisory_id, ignore_index } => DiagnosticView::Advisory {
                krate_index: *krate_index as int,
                advisory_id: advisory_id@,
                ignore_index: match ignore_index {
                    Some(j) => Some(*j as int),
                    None => None,
                },
            },
            Diagnostic::PrereleaseSkipped { krate_index, advisory_id, range } => DiagnosticView::PrereleaseSkipped {
                krate_index: *krate_index as int,
                advisory_id: advisory_id@,
                range: *range,
            },
            Diagnostic::Yanked { krate_index } => DiagnosticView::Yanked {
                krate_index: *krate_index as int,
            },
            Diagnostic::IndexFailure { message } => DiagnosticView::IndexFailure {
                message: message@,
            },
            Diagnostic::UnknownAdvisory { ignore_index, advisory_id } => DiagnosticView::UnknownAdvisory {
                ignore_index: *ignore_index as int,
                advisory_id: advisory_id@,
            },
            Diagnostic::UnusedIgnore { ignore_index, advisory_id } => DiagnosticView::UnusedIgnore {
                ignore_index: *ignore_index as int,
                advisory_id: advisory_id@,
            },
        }
    }
}

/// The ordered, append-only collection the engine pushes diagnostics to.
pub struct ErrorSink {
    pub diags: Vec<Diagnostic>,
}

impl View for ErrorSink {
    type V = Seq<DiagnosticView>;

    open spec fn view(&self) -> Seq<DiagnosticView> {
        self.diags@.map_values(|d: Diagnostic| d@)
    }
}

impl ErrorSink {
    /// An empty sink.
    pub fn new() -> (r: ErrorSink)
        ensures
            r@ == Seq::<DiagnosticView>::empty(),
    {
        let r = ErrorSink { diags: Vec::new() };
        proof {
            assert(r@ =~= Seq::<DiagnosticView>::empty());
        }
        r
    }

    /// Append one diagnostic.
    pub fn push(&mut self, d: Diagnostic)
        ensures
            final(self)@ == old(self)@.push(d@),
    {
        let ghost dv = d@;
        self.diags.push(d);
        proof {
            assert(self@ =~= old(self)@.push(dv));
        }
    }
}

/// What the engine is run against: the caller's package graph and the
/// validated configuration.
pub struct CheckCtx {
    pub krates: Krates,
    pub cfg: ValidConfig,
}

impl CheckCtx {
    /// The diagnostic for an advisory that matched the graph node at `i`,
    /// together with the position of the configured ignore entry for the
    /// advisory, if any, so the caller can record the hit.
    pub fn diag_for_advisory(&self, i: usize, advisory: &Metadata) -> (r: (
        Diagnostic,
        Option<usize>,
    ))
        ensures
            r.0@ == (DiagnosticView::Advisory {
                krate_index: i as int,
                advisory_id: advisory@.id,
                ignore_index: match r.1 {
                    Some(j) => Some(j as int),
                    None => None,
                },
            }),
            match r.1 {
                Some(j) => j < self.cfg@.ignore.len() && self.cfg@.ignore[j as int].value
                    == advisory@.id,
                None => !has_ignore(self.cfg@.ignore, advisory@.id),
            },
    {
        let hit = find_ignore(&self.cfg.ignore, &advisory.id);
        let d = Diagnostic::Advisory {
            krate_index: i,
            advisory_id: advisory.id.clone(),
            ignore_index: hit,
        };
        (d, hit)
    }

    /// The notice that replaces an advisory finding under the pre-release
    /// workaround, referencing the range that matched.
    pub fn diag_for_prerelease_skipped(&self, i: usize, advisory: &Metadata, range: Predicate) -> (r:
        Diagnostic)
        ensures
            r@ == (DiagnosticView::PrereleaseSkipped {
                krate_index: i as int,
                advisory_id: advisory@.id,
                range,
            }),
    {
        Diagnostic::PrereleaseSkipped { krate_index: i, advisory_id: advisory.id.clone(), range }
    }

    /// The diagnostic for a withdrawn package at graph node `i`.
    pub fn diag_for_yanked(&self, i: usize) -> (r: Diagnostic)
        ensures
            r@ == (DiagnosticView::Yanked { krate_index: i as int }),
    {
        Diagnostic::Yanked { krate_index: i }
    }

    /// The diagnostic for a failed registry index lookup.
    pub fn diag_for_index_failure(&self, e: FetchError) -> (r: Diagnostic)
        ensures
            r@ == (DiagnosticView::IndexFailure { message: e@ }),
    {
        Diagnostic::IndexFailure { message: e.message }
    }

    /// The diagnostic for an ignore entry naming an advisory no database
    /// knows.
    pub fn diag_for_unknown_advisory(&self, j: usize, ignored: &IgnoreEntry) -> (r: Diagnostic)
        ensures
            r@ == (DiagnosticView::UnknownAdvisory { ignore_index: j as int, advisory_id: ignored@.value }),
    {
        Diagnostic::UnknownAdvisory { ignore_index: j, advisory_id: ignored.value.clone() }
    }

    /// The diagnostic for an ignore entry no finding of this run matched.
    pub fn diag_for_advisory_not_encountered(&self, j: usize, ignore: &IgnoreEntry) -> (r:
        Diagnostic)
        ensures
            r@ == (DiagnosticView::UnusedIgnore { ignore_index: j as int, advisory_id: ignore@.value }),
    {
        Diagnostic::UnusedIgnore { ignore_index: j, advisory_id: ignore.value.clone() }
    }
}

} // verus!
