//! Container versions: three numeric components, ordered by semantic-version
//! precedence, and the requirements that a resource dependency places on them.

use crate::text::{decimal, push_decimal};
use core::cmp::Ordering;
use vstd::prelude::*;
use vstd::std_specs::cmp::PartialOrdSpecImpl;
use vstd::string::*;

verus! {

/// A three-part semantic version `MAJOR.MINOR.PATCH`.
#[derive(Clone, Copy, Debug, Hash, PartialEq, Eq, Structural)]
pub struct Version {
    pub major: u64,
    pub minor: u64,
    pub patch: u64,
}

/// Why a text is not a version of a container.
#[derive(Clone, Copy, Debug, PartialEq, Eq, Structural)]
pub enum VersionError {
    /// The text is no semantic version at all.
    Malformed,
    /// The text is a semantic version with a pre-release tag or build
    /// metadata, which a container version cannot carry.
    NotThreePart,
}

/// The fields of a semantic version as its parser reports them.
#[derive(Debug)]
pub struct ParsedSemver {
    pub major: u64,
    pub minor: u64,
    pub patch: u64,
    /// The pre-release tag, empty where there is none.
    pub pre: String,
    /// The build metadata, empty where there is none.
    pub build: String,
}

/// The mathematical content of a [`ParsedSemver`].
pub struct SemverFields {
    pub major: u64,
    pub minor: u64,
    pub patch: u64,
    pub pre: Seq<char>,
    pub build: Seq<char>,
}

impl View for ParsedSemver {
    type V = SemverFields;

    open spec fn view(&self) -> SemverFields {
        SemverFields {
            major: self.major,
            minor: self.minor,
            patch: self.patch,
            pre: self.pre@,
            build: self.build@,
        }
    }
}

/// What the semantic-version parser makes of `text`: the version's fields,
/// or `None` where it rejects the text.
pub uninterp spec fn semver_parse(text: Seq<char>) -> Option<SemverFields>;

/// Whether the requirement written as `requirement` admits the version
/// `major.minor.patch`. A text that is no requirement admits nothing.
pub uninterp spec fn requirement_admits(
    requirement: Seq<char>,
    major: u64,
    minor: u64,
    patch: u64,
) -> bool;

/// Calls `semver::Version::parse` and copies the fields of the version it
/// returns. Trusted: the result is what the parser yields for this text, and
/// the parser is a function of the text alone.
#[verifier::external_body]
fn parse_semver(text: &str) -> (r: Option<ParsedSemver>)
    ensures
        match r {
            Some(p) => semver_parse(text@) == Some(p@),
            None => semver_parse(text@) is None,
        },
{
    match semver::Version::parse(text) {
        Ok(v) => Some(
            ParsedSemver {
                major: v.major,
                minor: v.minor,
                patch: v.patch,
                pre: v.pre.as_str().to_string(),
                build: v.build.as_str().to_string(),
            },
        ),
        Err(_) => None,
    }
}

/// Calls `semver::VersionReq::matches` on the requirement that
/// `semver::VersionReq::parse` reads from `requirement`, for the version
/// `major.minor.patch` without pre-release tag. Trusted: the answer depends
/// on the four arguments alone; a text that does not parse admits nothing.
#[verifier::external_body]
fn semver_matches(requirement: &str, major: u64, minor: u64, patch: u64) -> (r: bool)
    ensures
        r == requirement_admits(requirement@, major, minor, patch),
{
    match semver::VersionReq::parse(requirement) {
        Ok(req) => req.matches(&semver::Version::new(major, minor, patch)),
        Err(_) => false,
    }
}

impl ParsedSemver {
    /// Whether these are the fields of a version without pre-release tag and
    /// build metadata.
    pub open spec fn is_three_part(fields: SemverFields) -> bool {
        fields.pre.len() == 0 && fields.build.len() == 0
    }
}

impl Version {
    /// The version `major.minor.patch`.
    pub fn new(major: u64, minor: u64, patch: u64) -> (v: Version)
        ensures
            v == (Version { major, minor, patch }),
    {
        Version { major, minor, patch }
    }

    /// The container version that parsed fields stand for, if any.
    pub open spec fn of_fields(fields: Option<SemverFields>) -> Result<Version, VersionError> {
        match fields {
            None => Err(VersionError::Malformed),
            Some(f) => if ParsedSemver::is_three_part(f) {
                Ok(Version { major: f.major, minor: f.minor, patch: f.patch })
            } else {
                Err(VersionError::NotThreePart)
            },
        }
    }

    /// Turns parsed fields into a container version. Fields with a
    /// pre-release tag or build metadata are rejected.
    pub fn from_parsed(parsed: &ParsedSemver) -> (r: Result<Version, VersionError>)
        ensures
            r == Version::of_fields(Some(parsed@)),
    {
        if parsed.pre.as_str().is_empty() && parsed.build.as_str().is_empty() {
            Ok(Version { major: parsed.major, minor: parsed.minor, patch: parsed.patch })
        } else {
            Err(VersionError::NotThreePart)
        }
    }

    /// Parses `MAJOR.MINOR.PATCH`.
    pub fn parse(text: &str) -> (r: Result<Version, VersionError>)
        ensures
            r == Version::of_fields(semver_parse(text@)),
    {
        match parse_semver(text) {
            Some(parsed) => Version::from_parsed(&parsed),
            None => Err(VersionError::Malformed),
        }
    }

    /// The printable form `MAJOR.MINOR.PATCH`.
    pub open spec fn text(self) -> Seq<char> {
        decimal(self.major as nat) + seq!['.'] + decimal(self.minor as nat) + seq!['.'] + decimal(
            self.patch as nat,
        )
    }

    /// The printable form `MAJOR.MINOR.PATCH`.
    pub fn to_string(&self) -> (s: String)
        ensures
            s@ == self.text(),
    {
        let mut s = String::new();
        self.push_to(&mut s);
        assert(s@ =~= self.text());
        s
    }

    /// Appends the printable form to `out`.
    pub fn push_to(&self, out: &mut String)
        ensures
            final(out)@ == old(out)@ + self.text(),
    {
        proof {
            reveal_strlit(".");
        }
        push_decimal(out, self.major);
        out.append(".");
        push_decimal(out, self.minor);
        out.append(".");
        push_decimal(out, self.patch);
        assert(out@ =~= old(out)@ + self.text());
    }

    /// Strict precedence: `self` comes before `other`.
    pub open spec fn precedes(self, other: Version) -> bool {
        ||| self.major < other.major
        ||| self.major == other.major && self.minor < other.minor
        ||| self.major == other.major && self.minor == other.minor && self.patch < other.patch
    }

    /// How `self` stands to `other`: numeric comparison of the components,
    /// major first.
    pub open spec fn compare(self, other: Version) -> Ordering {
        if self.precedes(other) {
            Ordering::Less
        } else if self == other {
            Ordering::Equal
        } else {
            Ordering::Greater
        }
    }

    /// Whether the requirement written as `requirement` admits this version.
    pub open spec fn satisfies(self, requirement: Seq<char>) -> bool {
        requirement_admits(requirement, self.major, self.minor, self.patch)
    }

    /// Whether the requirement written as `requirement` (such as `^1.0`)
    /// admits this version.
    pub fn matches(&self, requirement: &str) -> (r: bool)
        ensures
            r == self.satisfies(requirement@),
    {
        semver_matches(requirement, self.major, self.minor, self.patch)
    }
}

impl Default for Version {
    /// The version `0.0.0`.
    fn default() -> (v: Version)
        ensures
            v == (Version { major: 0, minor: 0, patch: 0 }),
    {
        Version { major: 0, minor: 0, patch: 0 }
    }
}

impl PartialOrd for Version {
    fn partial_cmp(&self, other: &Version) -> (r: Option<Ordering>) {
        if self.major != other.major {
            if self.major < other.major {
                Some(Ordering::Less)
            } else {
                Some(Ordering::Greater)
            }
        } else if self.minor != other.minor {
            if self.minor < other.minor {
                Some(Ordering::Less)
            } else {
                Some(Ordering::Greater)
            }
        } else if self.patch != other.patch {
            if self.patch < other.patch {
                Some(Ordering::Less)
            } else {
                Some(Ordering::Greater)
            }
        } else {
            Some(Ordering::Equal)
        }
    }
}

impl PartialOrdSpecImpl for Version {
    open spec fn obeys_partial_cmp_spec() -> bool {
        true
    }

    open spec fn partial_cmp_spec(&self, other: &Version) -> Option<Ordering> {
        Some(self.compare(*other))
    }
}

/// Precedence is transitive: from `a < b` and `b < c` follows `a < c`.
pub proof fn precedence_is_transitive(a: Version, b: Version, c: Version)
    requires
        a.precedes(b),
        b.precedes(c),
    ensures
        a.precedes(c),
{
}

/// Precedence is a strict total order: no version precedes itself, and of
/// two different versions exactly one precedes the other.
pub proof fn precedence_is_strict_and_total(a: Version, b: Version)
    ensures
        !a.precedes(a),
        a != b ==> (a.precedes(b) <==> !b.precedes(a)),
        a == b ==> !a.precedes(b) && !b.precedes(a),
{
}

impl Version {
    /// Whether `self` precedes `other`; the operator `<` decides the same.
    pub fn is_before(&self, other: &Version) -> (r: bool)
        ensures
            r == self.precedes(*other),
    {
        self < other
    }
}

} // verus!
