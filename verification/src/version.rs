use vstd::prelude::*;

verus! {

/// A semantic version: `major.minor.patch`, optionally carrying a pre-release
/// label such as `beta.1`. Build metadata plays no role in matching and is not
/// kept. Two versions are the same exactly when all four parts agree.
#[derive(Debug)]
pub struct Version {
    pub major: u64,
    pub minor: u64,
    pub patch: u64,
    pub pre: String,
}

/// The mathematical value of a [`Version`].
#[verifier::ext_equal]
pub struct VersionView {
    pub major: u64,
    pub minor: u64,
    pub patch: u64,
    pub pre: Seq<char>,
}

impl View for Version {
    type V = VersionView;

    open spec fn view(&self) -> VersionView {
        VersionView { major: self.major, minor: self.minor, patch: self.patch, pre: self.pre@ }
    }
}

pub open spec fn version_eq(a: VersionView, b: VersionView) -> bool {
    a.major == b.major && a.minor == b.minor && a.patch == b.patch && a.pre == b.pre
}

/// Strip the pre-release label, keeping only `major.minor.patch`.
pub open spec fn spec_strip(v: VersionView) -> VersionView {
    VersionView { major: v.major, minor: v.minor, patch: v.patch, pre: Seq::empty() }
}

impl Version {
    /// True when this version carries a pre-release label.
    pub fn is_prerelease(&self) -> (r: bool)
        ensures
            r == (self@.pre.len() > 0),
    {
        !self.pre.as_str().is_empty()
    }

    /// A copy of this version.
    pub fn dup(&self) -> (r: Version)
        ensures
            r@ == self@,
    {
        let r = Version {
            major: self.major,
            minor: self.minor,
            patch: self.patch,
            pre: self.pre.clone(),
        };
        proof {
            assert(r@ =~= self@);
        }
        r
    }

    /// The version with the pre-release label removed, as used for the
    /// closest-match walk over declared ranges.
    pub fn strip_pre(&self) -> (r: Version)
        ensures
            r@ == spec_strip(self@),
    {
        let r = Version { major: self.major, minor: self.minor, patch: self.patch, pre: String::new() };
        proof {
            assert(r@ =~= spec_strip(self@));
        }
        r
    }

    /// Whether the two versions agree in every part.
    pub fn same_as(&self, other: &Version) -> (r: bool)
        ensures
            r == version_eq(self@, other@),
    {
        self.major == other.major && self.minor == other.minor && self.patch == other.patch
            && self.pre == other.pre
    }
}

/// The comparison a version-match predicate applies to a version.
#[derive(Clone, Copy, Debug, PartialEq, Eq, Structural)]
pub enum Op {
    Exact,
    Greater,
    GreaterEq,
    Less,
    LessEq,
}

/// One version-match predicate of a declared range, such as `>=1.2.0`.
/// Predicates name plain releases; a version that carries a pre-release label
/// never satisfies one, which is the documented shortcoming the pre-release
/// workaround exists for.
#[derive(Clone, Copy, Debug, PartialEq, Eq, Structural)]
pub struct Predicate {
    pub op: Op,
    pub major: u64,
    pub minor: u64,
    pub patch: u64,
}

/// Lexicographic order on `major.minor.patch` triples: is `a` before `b`?
pub open spec fn triple_lt(
    a_major: u64,
    a_minor: u64,
    a_patch: u64,
    b_major: u64,
    b_minor: u64,
    b_patch: u64,
) -> bool {
    a_major < b_major || (a_major == b_major && (a_minor < b_minor || (a_minor == b_minor
        && a_patch < b_patch)))
}

pub open spec fn triple_eq(
    a_major: u64,
    a_minor: u64,
    a_patch: u64,
    b_major: u64,
    b_minor: u64,
    b_patch: u64,
) -> bool {
    a_major == b_major && a_minor == b_minor && a_patch == b_patch
}

/// Does the bare `major.minor.patch` triple satisfy the predicate?
pub open spec fn pred_matches_triple(p: Predicate, major: u64, minor: u64, patch: u64) -> bool {
    match p.op {
        Op::Exact => triple_eq(major, minor, patch, p.major, p.minor, p.patch),
        Op::Greater => triple_lt(p.major, p.minor, p.patch, major, minor, patch),
        Op::GreaterEq => !triple_lt(major, minor, patch, p.major, p.minor, p.patch),
        Op::Less => triple_lt(major, minor, patch, p.major, p.minor, p.patch),
        Op::LessEq => !triple_lt(p.major, p.minor, p.patch, major, minor, patch),
    }
}

/// Does the version satisfy the predicate? A pre-release version satisfies
/// none.
pub open spec fn pred_matches(p: Predicate, v: VersionView) -> bool {
    v.pre.len() == 0 && pred_matches_triple(p, v.major, v.minor, v.patch)
}

impl Predicate {
    /// Evaluate the predicate on a bare triple.
    pub fn matches_triple(&self, major: u64, minor: u64, patch: u64) -> (r: bool)
        ensures
            r == pred_matches_triple(*self, major, minor, patch),
    {
        let lt_pred = major < self.major || (major == self.major && (minor < self.minor || (minor
            == self.minor && patch < self.patch)));
        let gt_pred = self.major < major || (self.major == major && (self.minor < minor
            || (self.minor == minor && self.patch < patch)));
        match self.op {
            Op::Exact => major == self.major && minor == self.minor && patch == self.patch,
            Op::Greater => gt_pred,
            Op::GreaterEq => !lt_pred,
            Op::Less => lt_pred,
            Op::LessEq => !gt_pred,
        }
    }

    /// Evaluate the predicate on a version.
    pub fn matches(&self, v: &Version) -> (r: bool)
        ensures
            r == pred_matches(*self, v@),
    {
        !v.is_prerelease() && self.matches_triple(v.major, v.minor, v.patch)
    }
}

} // verus!
