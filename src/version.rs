//! The minimum-version gate on the tools a project needs.

use crate::text::{trim, trimmed};
use vstd::prelude::*;

verus! {

#[verifier::external_type_specification]
#[verifier::external_body]
pub struct ExSemverError(semver_rs::Error);

/// The least major version of Node that a project needs.
pub const NODE_MINIMUM_MAJOR: u64 = 20;

/// The least major version of Yarn that a project needs.
pub const YARN_MINIMUM_MAJOR: u64 = 4;

/// What the semver parser reads from a version string: whether the text was
/// no version at all, and the major number.
#[derive(Clone, Copy, Debug, PartialEq, Eq, Structural)]
pub struct ParsedVersion {
    pub empty: bool,
    pub major: i64,
}

#[derive(Debug, PartialEq, Eq, Structural)]
pub enum VersionError {
    /// The text is not a version.
    ParseError,
    /// The major version is below the minimum.
    VersionTooOld,
}

/// What `semver_rs` parses the text into; `None` where it reports an error.
pub uninterp spec fn semver_parsed(s: Seq<char>) -> Option<ParsedVersion>;

/// Relies on `semver_rs::Version` parsing (strict mode): the outcome depends
/// on the text alone.
#[verifier::external_body]
fn parse_version(s: &str) -> (r: Result<ParsedVersion, semver_rs::Error>)
    ensures
        r is Ok <==> semver_parsed(s@) is Some,
        r matches Ok(p) ==> p == semver_parsed(s@)->0,
{
    semver_rs::Version::new(s).parse().map(|v| ParsedVersion { empty: v.is_empty(), major: v.major })
}

/// Whether a parsed version reaches the major floor; minor and patch do not count.
pub open spec fn gate(p: Option<ParsedVersion>, minimum_major: u64) -> Result<bool, VersionError> {
    match p {
        None => Err(VersionError::ParseError),
        Some(v) => if v.empty {
            Err(VersionError::ParseError)
        } else {
            Ok(v.major as int >= minimum_major as int)
        },
    }
}

/// Whether the outcome of parsing a version reaches the major floor.
pub fn meets_minimum(p: Option<ParsedVersion>, minimum_major: u64) -> (r: Result<bool, VersionError>)
    ensures
        r == gate(p, minimum_major),
{
    match p {
        None => Err(VersionError::ParseError),
        Some(v) => if v.empty {
            Err(VersionError::ParseError)
        } else {
            Ok(v.major as i128 >= minimum_major as i128)
        },
    }
}

/// Whether the version `actual` has a major number of at least `minimum_major`.
pub fn check_minimum(actual: &str, minimum_major: u64) -> (r: Result<bool, VersionError>)
    ensures
        r == gate(semver_parsed(actual@), minimum_major),
{
    let p = match parse_version(actual) {
        Ok(v) => Some(v),
        Err(_) => None,
    };
    meets_minimum(p, minimum_major)
}

/// Whether the printed version `output`, without surrounding whitespace,
/// has a major number of at least `minimum_major`.
pub open spec fn tool_gate(output: Seq<char>, minimum_major: u64) -> Result<(), VersionError> {
    let (lo, hi) = choose|lo: int, hi: int| #[trigger] trimmed(output, lo, hi);
    match gate(semver_parsed(output.subrange(lo, hi)), minimum_major) {
        Err(e) => Err(e),
        Ok(true) => Ok(()),
        Ok(false) => Err(VersionError::VersionTooOld),
    }
}

proof fn lemma_trimmed_unique(s: Seq<char>, lo: int, hi: int, lo2: int, hi2: int)
    requires
        trimmed(s, lo, hi),
        trimmed(s, lo2, hi2),
    ensures
        s.subrange(lo, hi) == s.subrange(lo2, hi2),
{
    if lo < hi && lo2 < hi2 {
        assert(lo == lo2) by {
            if lo < lo2 {
                assert(is_space_at(s, lo));
            } else if lo2 < lo {
                assert(is_space_at(s, lo2));
            }
        }
        assert(hi == hi2) by {
            if hi < hi2 {
                assert(is_space_at(s, hi2 - 1));
            } else if hi2 < hi {
                assert(is_space_at(s, hi - 1));
            }
        }
    } else {
        assert(s.subrange(lo, hi) =~= seq![]);
        assert(s.subrange(lo2, hi2) =~= seq![]);
    }
}

spec fn is_space_at(s: Seq<char>, k: int) -> bool {
    crate::text::is_space(s[k])
}

/// Checks the version text that a program printed against a major floor.
pub fn check_tool_version(output: &str, minimum_major: u64) -> (r: Result<(), VersionError>)
    ensures
        r == tool_gate(output@, minimum_major),
{
    let t = trim(output);
    proof {
        let (lo, hi) = choose|lo: int, hi: int| trimmed(output@, lo, hi) && t@ == output@.subrange(lo, hi);
        let (lo2, hi2) = choose|lo: int, hi: int| #[trigger] trimmed(output@, lo, hi);
        lemma_trimmed_unique(output@, lo, hi, lo2, hi2);
    }
    match check_minimum(t, minimum_major) {
        Err(e) => Err(e),
        Ok(true) => Ok(()),
        Ok(false) => Err(VersionError::VersionTooOld),
    }
}

/// Checks the report of `node --version`.
pub fn check_node(output: &str) -> (r: Result<(), VersionError>)
    ensures
        r == tool_gate(output@, NODE_MINIMUM_MAJOR),
{
    check_tool_version(output, NODE_MINIMUM_MAJOR)
}

/// Checks the report of `yarn --version`.
pub fn check_yarn_version(output: &str) -> (r: Result<(), VersionError>)
    ensures
        r == tool_gate(output@, YARN_MINIMUM_MAJOR),
{
    check_tool_version(output, YARN_MINIMUM_MAJOR)
}

} // verus!
