//! Semantic versions as the server reads them: the three numeric
//! components and the presence of a pre-release tag, parsed by the `semver`
//! crate, compared and admitted by verified code.
use vstd::prelude::*;

verus! {

/// A semantic version as plain values: the numeric components, and whether
/// the version carried a pre-release tag.
#[derive(Clone, Copy, PartialEq, Eq, Structural, Debug)]
pub struct SemVer {
    /// major component
    pub major: u64,

    /// minor component
    pub minor: u64,

    /// patch component
    pub patch: u64,

    /// whether a pre-release tag is present
    pub pre: bool,
}

/// What `semver`'s parser returns for a given character sequence: the three
/// numeric components and the pre-release flag, or nothing when the text is
/// not a semantic version. The outcome depends on the characters alone.
pub uninterp spec fn spec_parse_version(s: Seq<char>) -> Option<(u64, u64, u64, bool)>;

/// Relies on semver::Version::parse: returns the parsed version's major,
/// minor and patch fields and whether its pre-release component is
/// nonempty; the outcome is a function of the input characters alone.
#[verifier::external_body]
fn parse_version_raw(s: &str) -> (r: Option<(u64, u64, u64, bool)>)
    ensures
        r == spec_parse_version(s@),
{
    match semver::Version::parse(s) {
        Ok(v) => Some((v.major, v.minor, v.patch, !v.pre.is_empty())),
        Err(_) => None,
    }
}

/// The `SemVer` a parse outcome stands for.
pub open spec fn spec_semver_of(t: (u64, u64, u64, bool)) -> SemVer {
    SemVer { major: t.0, minor: t.1, patch: t.2, pre: t.3 }
}

/// Parses a semantic version; `None` exactly when the text is not one.
pub fn parse_version(s: &str) -> (r: Option<SemVer>)
    ensures
        r == (match spec_parse_version(s@) {
            Some(t) => Some(spec_semver_of(t)),
            None => None,
        }),
{
    match parse_version_raw(s) {
        Some((major, minor, patch, pre)) => Some(SemVer { major, minor, patch, pre }),
        None => None,
    }
}

/// The server's fixed compatibility predicate: a client version is admitted
/// exactly when it is a plain release (no pre-release tag) whose numeric
/// components are at most 0.1.0 in precedence order.
pub open spec fn spec_compatible(v: SemVer) -> bool {
    !v.pre && v.major == 0 && (v.minor == 0 || (v.minor == 1 && v.patch == 0))
}

impl SemVer {
    /// Version precedence on the plain components: numeric, left to right,
    /// with a pre-release ranking below the same plain release.
    pub open spec fn spec_precedes(self, other: SemVer) -> bool {
        ||| self.major < other.major
        ||| (self.major == other.major && self.minor < other.minor)
        ||| (self.major == other.major && self.minor == other.minor && self.patch < other.patch)
        ||| (self.major == other.major && self.minor == other.minor && self.patch == other.patch
            && self.pre && !other.pre)
    }

    /// Builds a plain release version from its numeric components.
    pub fn new(major: u64, minor: u64, patch: u64) -> (v: SemVer)
        ensures
            v == (SemVer { major, minor, patch, pre: false }),
    {
        SemVer { major, minor, patch, pre: false }
    }

    /// Whether this version ranks strictly before `other` in precedence
    /// order.
    pub fn precedes(&self, other: &SemVer) -> (r: bool)
        ensures
            r == self.spec_precedes(*other),
    {
        if self.major != other.major {
            self.major < other.major
        } else if self.minor != other.minor {
            self.minor < other.minor
        } else if self.patch != other.patch {
            self.patch < other.patch
        } else {
            self.pre && !other.pre
        }
    }

    /// Whether the server admits a client of this version.
    pub fn compatible(&self) -> (r: bool)
        ensures
            r == spec_compatible(*self),
    {
        !self.pre && self.major == 0 && (self.minor == 0 || (self.minor == 1 && self.patch == 0))
    }
}

} // verus!
