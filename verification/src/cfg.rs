use vstd::prelude::*;

verus! {

/// How sternly a class of findings is reported. `Allow` opts out of the
/// finding entirely.
#[derive(Clone, Copy, Debug, PartialEq, Eq, Structural)]
pub enum LintLevel {
    Allow,
    Warn,
    Deny,
}

/// One user-configured ignore entry: an advisory identifier whose findings
/// are to be suppressed, with an optional free-text reason. Its position in
/// the configured list is stable for the whole run.
pub struct IgnoreEntry {
    pub value: String,
    pub reason: Option<String>,
}

/// The mathematical value of an [`IgnoreEntry`].
#[verifier::ext_equal]
pub struct IgnoreEntryView {
    pub value: Seq<char>,
    pub reason: Option<Seq<char>>,
}

impl View for IgnoreEntry {
    type V = IgnoreEntryView;

    open spec fn view(&self) -> IgnoreEntryView {
        IgnoreEntryView {
            value: self.value@,
            reason: match self.reason {
                Some(r) => Some(r@),
                None => None,
            },
        }
    }
}

/// The validated configuration the engine consumes: the ignore list, and the
/// severity configured for withdrawn-package findings.
pub struct ValidConfig {
    pub ignore: Vec<IgnoreEntry>,
    pub yanked: LintLevel,
}

/// The mathematical value of a [`ValidConfig`].
#[verifier::ext_equal]
pub struct ValidConfigView {
    pub ignore: Seq<IgnoreEntryView>,
    pub yanked: LintLevel,
}

impl View for ValidConfig {
    type V = ValidConfigView;

    open spec fn view(&self) -> ValidConfigView {
        ValidConfigView {
            ignore: self.ignore@.map_values(|e: IgnoreEntry| e@),
            yanked: self.yanked,
        }
    }
}

/// Identifiers are unique within the ignore list, so at most one entry can
/// match an advisory.
pub open spec fn ignore_ids_distinct(ignore: Seq<IgnoreEntryView>) -> bool {
    forall|i: int, j: int|
        0 <= i < ignore.len() && 0 <= j < ignore.len() && i != j ==> ignore[i].value
            != ignore[j].value
}

/// Is some ignore entry configured for this advisory identifier?
pub open spec fn has_ignore(ignore: Seq<IgnoreEntryView>, id: Seq<char>) -> bool {
    exists|j: int| 0 <= j < ignore.len() && ignore[j].value == id
}

/// The position of the ignore entry configured for this identifier.
/// Meaningful only when [`has_ignore`] holds; unique when
/// [`ignore_ids_distinct`] holds.
pub open spec fn ignore_index(ignore: Seq<IgnoreEntryView>, id: Seq<char>) -> int {
    choose|j: int| 0 <= j < ignore.len() && ignore[j].value == id
}

/// Find the position of the ignore entry configured for this identifier,
/// returning the first match.
pub fn find_ignore(ignore: &Vec<IgnoreEntry>, id: &String) -> (r: Option<usize>)
    ensures
        match r {
            Some(j) => j < ignore@.len() && ignore@.map_values(|e: IgnoreEntry| e@)[j as int].value
                == id@,
            None => !has_ignore(ignore@.map_values(|e: IgnoreEntry| e@), id@),
        },
{
    let ghost iv = ignore@.map_values(|e: IgnoreEntry| e@);
    let n = ignore.len();
    let mut j: usize = 0;
    while j < n
        invariant
            iv == ignore@.map_values(|e: IgnoreEntry| e@),
            n == iv.len(),
            j <= n,
            forall|k: int| 0 <= k < j ==> iv[k].value != id@,
        decreases n - j,
    {
        proof {
            assert(iv[j as int] == ignore@[j as int]@);
        }
        if ignore[j].value == *id {
            return Some(j);
        }
        j += 1;
    }
    None
}

} // verus!
