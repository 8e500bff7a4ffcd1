use vstd::prelude::*;

verus! {

/// A version as `semver` reads it.
#[verifier::external_type_specification]
#[verifier::external_body]
pub struct ExSemverVersion(semver::Version);

/// The plain parts of a semantic version: major, minor, patch, the pre-release
/// text and the build-metadata text.
pub type SemVerParts = (u64, u64, u64, Seq<char>, Seq<char>);

/// What `semver::Version::parse` reads from a text: `None` where it refuses the
/// text, else the version's numbers and the texts of its pre-release and build parts.
pub uninterp spec fn semver_parse(text: Seq<char>) -> Option<SemVerParts>;

/// How `semver::Version` orders two versions with the given parts: -1, 0 or 1.
pub uninterp spec fn semver_precedence(a: SemVerParts, b: SemVerParts) -> int;

/// A version that `semver` has read, with its parts.
pub struct SemVer {
    major: u64,
    minor: u64,
    patch: u64,
    pre: String,
    build: String,
    version: semver::Version,
}

impl View for SemVer {
    type V = SemVerParts;

    open spec fn view(&self) -> SemVerParts {
        (self.major_spec(), self.minor_spec(), self.patch_spec(), self.pre_spec(), self.build_spec())
    }
}

impl SemVer {
    pub closed spec fn major_spec(&self) -> u64 {
        self.major
    }

    pub closed spec fn minor_spec(&self) -> u64 {
        self.minor
    }

    pub closed spec fn patch_spec(&self) -> u64 {
        self.patch
    }

    pub closed spec fn pre_spec(&self) -> Seq<char> {
        self.pre@
    }

    pub closed spec fn build_spec(&self) -> Seq<char> {
        self.build@
    }
}

/// The three numbers of `a` come before those of `b`, compared in turn.
pub open spec fn numbers_before(a: SemVerParts, b: SemVerParts) -> bool {
    ||| a.0 < b.0
    ||| (a.0 == b.0 && a.1 < b.1)
    ||| (a.0 == b.0 && a.1 == b.1 && a.2 < b.2)
}

/// `semver::Version::parse`: the version that the text spells, or `None` where
/// `semver` refuses it. What it accepts and what it reads is named by
/// `semver_parse`; the parts are copied out of the parsed version as they are.
#[verifier::external_body]
pub(crate) fn parse_semver(text: &str) -> (r: Option<SemVer>)
    ensures
        r is Some <==> semver_parse(text@) is Some,
        r matches Some(v) ==> Some(v@) == semver_parse(text@),
{
    match semver::Version::parse(text) {
        Ok(v) => Some(SemVer {
            major: v.major,
            minor: v.minor,
            patch: v.patch,
            pre: v.pre.as_str().to_string(),
            build: v.build.as_str().to_string(),
            version: v,
        }),
        Err(_) => None,
    }
}

/// `Ord::cmp` of `semver::Version`: -1, 0 or 1 as `a` comes before, equals or
/// comes after `b`. The order is total (semver derives it over the numbers, then
/// the pre-release, then the build metadata); it returns 0 only for equal versions,
/// swapping the arguments negates it, and versions whose numbers differ are ordered
/// by their numbers. How pre-release and build texts order is not stated here
/// beyond that; it is named by `semver_precedence`.
#[verifier::external_body]
pub(crate) fn compare_semver(a: &SemVer, b: &SemVer) -> (r: i8)
    ensures
        r == semver_precedence(a@, b@),
        -1 <= r <= 1,
        (r == 0) == (a@ == b@),
        r == -semver_precedence(b@, a@),
        numbers_before(a@, b@) ==> r == -1,
        numbers_before(b@, a@) ==> r == 1,
{
    match a.version.cmp(&b.version) {
        core::cmp::Ordering::Less => -1,
        core::cmp::Ordering::Equal => 0,
        core::cmp::Ordering::Greater => 1,
    }
}

} // verus!
