//! Package versions, as `semver` parses, prints and orders them.
use vstd::prelude::*;
use crate::text::{decimal, push_decimal, push_str};

verus! {

/// What `semver::Version::parse` makes of a text: major, minor, patch,
/// pre-release and build metadata, or `None` where it reports an error.
pub uninterp spec fn semver_parse(text: Seq<char>) -> Option<(u64, u64, u64, Seq<char>, Seq<char>)>;

/// Does `semver::Prerelease::new` accept this text?
pub uninterp spec fn semver_prerelease_ok(pre: Seq<char>) -> bool;

/// Does `semver::BuildMetadata::new` accept this text?
pub uninterp spec fn semver_build_ok(build: Seq<char>) -> bool;

/// `<` on `semver::Version`.
pub uninterp spec fn semver_lt(
    a: (u64, u64, u64, Seq<char>, Seq<char>),
    b: (u64, u64, u64, Seq<char>, Seq<char>),
) -> bool;

/// A semantic version: major, minor, patch, pre-release and build metadata.
/// Every value holds the parts of a `semver::Version`.
#[derive(Debug, PartialEq, Eq, Hash)]
pub struct Version {
    major: u64,
    minor: u64,
    patch: u64,
    pre: String,
    build: String,
}

impl View for Version {
    type V = (u64, u64, u64, Seq<char>, Seq<char>);

    closed spec fn view(&self) -> (u64, u64, u64, Seq<char>, Seq<char>) {
        (self.major, self.minor, self.patch, self.pre@, self.build@)
    }
}

/// The text of a version: `major.minor.patch`, then `-pre` and `+build`
/// where those are not empty.
pub open spec fn version_text(v: (u64, u64, u64, Seq<char>, Seq<char>)) -> Seq<char> {
    decimal(v.0 as nat) + seq!['.'] + decimal(v.1 as nat) + seq!['.'] + decimal(v.2 as nat) + (
    if v.3.len() == 0 {
        Seq::empty()
    } else {
        seq!['-'] + v.3
    }) + (if v.4.len() == 0 {
        Seq::empty()
    } else {
        seq!['+'] + v.4
    })
}

impl Clone for Version {
    fn clone(&self) -> (r: Self)
        ensures
            r@ == self@,
    {
        proof {
            use_type_invariant(self);
        }
        Version {
            major: self.major,
            minor: self.minor,
            patch: self.patch,
            pre: self.pre.clone(),
            build: self.build.clone(),
        }
    }
}

impl Version {
    #[verifier::type_invariant]
    closed spec fn inv(&self) -> bool {
        semver_prerelease_ok(self.pre@) && semver_build_ok(self.build@)
    }

    /// Calls `semver::Version::new`. Claimed: the version has these numbers
    /// and empty pre-release and build metadata, which `Prerelease::new` and
    /// `BuildMetadata::new` accept.
    #[verifier::external_body]
    pub fn new(major: u64, minor: u64, patch: u64) -> (v: Version)
        ensures
            v@ == (major, minor, patch, Seq::<char>::empty(), Seq::<char>::empty()),
            semver_prerelease_ok(v@.3),
            semver_build_ok(v@.4),
    {
        let s = semver::Version::new(major, minor, patch);
        Version {
            major: s.major,
            minor: s.minor,
            patch: s.patch,
            pre: s.pre.as_str().to_string(),
            build: s.build.as_str().to_string(),
        }
    }

    /// Calls `semver::Version::parse`. Claimed: the outcome is a function of
    /// the text; the parts of a parsed version are accepted again by
    /// `Prerelease::new` and `BuildMetadata::new`.
    #[verifier::external_body]
    pub fn parse(text: &str) -> (r: Option<Version>)
        ensures
            r matches Some(v) ==> semver_parse(text@) == Some(v@) && semver_prerelease_ok(v@.3)
                && semver_build_ok(v@.4),
            r is None ==> semver_parse(text@) is None,
    {
        match semver::Version::parse(text) {
            Ok(s) => Some(
                Version {
                    major: s.major,
                    minor: s.minor,
                    patch: s.patch,
                    pre: s.pre.as_str().to_string(),
                    build: s.build.as_str().to_string(),
                },
            ),
            Err(_) => None,
        }
    }

    pub fn major(&self) -> (m: u64)
        ensures
            m == self@.0,
    {
        self.major
    }

    pub fn minor(&self) -> (m: u64)
        ensures
            m == self@.1,
    {
        self.minor
    }

    pub fn patch(&self) -> (m: u64)
        ensures
            m == self@.2,
    {
        self.patch
    }

    /// Calls `<` on the two `semver::Version`s. Claimed: the outcome is a
    /// function of the two versions; no version is less than itself; and, as
    /// the derived order of `semver::Version` compares major, then minor,
    /// then patch first, a smaller number in the first place where they
    /// differ decides it.
    #[verifier::external_body]
    pub fn lt(&self, other: &Version) -> (r: bool)
        ensures
            r == semver_lt(self@, other@),
            self@ == other@ ==> !r,
            self@.0 < other@.0 ==> r,
            self@.0 > other@.0 ==> !r,
            self@.0 == other@.0 && self@.1 < other@.1 ==> r,
            self@.0 == other@.0 && self@.1 > other@.1 ==> !r,
            self@.0 == other@.0 && self@.1 == other@.1 && self@.2 < other@.2 ==> r,
            self@.0 == other@.0 && self@.1 == other@.1 && self@.2 > other@.2 ==> !r,
    {
        let a = semver::Version {
            major: self.major,
            minor: self.minor,
            patch: self.patch,
            pre: semver::Prerelease::new(&self.pre).unwrap(),
            build: semver::BuildMetadata::new(&self.build).unwrap(),
        };
        let b = semver::Version {
            major: other.major,
            minor: other.minor,
            patch: other.patch,
            pre: semver::Prerelease::new(&other.pre).unwrap(),
            build: semver::BuildMetadata::new(&other.build).unwrap(),
        };
        a < b
    }

    /// Are the two versions the same: the same numbers, pre-release and
    /// build metadata?
    pub fn same_as(&self, other: &Version) -> (b: bool)
        ensures
            b == (self@ == other@),
    {
        self.major == other.major && self.minor == other.minor && self.patch == other.patch
            && crate::text::str_eq(self.pre.as_str(), other.pre.as_str())
            && crate::text::str_eq(self.build.as_str(), other.build.as_str())
    }

    /// The text of the version (see [`version_text`]).
    pub fn to_string(&self) -> (s: String)
        ensures
            s@ == version_text(self@),
    {
        let mut s = String::new();
        push_decimal(&mut s, self.major);
        s.push('.');
        push_decimal(&mut s, self.minor);
        s.push('.');
        push_decimal(&mut s, self.patch);
        if !self.pre.as_str().is_empty() {
            s.push('-');
            push_str(&mut s, self.pre.as_str());
        }
        if !self.build.as_str().is_empty() {
            s.push('+');
            push_str(&mut s, self.build.as_str());
        }
        assert(s@ =~= version_text(self@));
        s
    }
}

} // verus!
