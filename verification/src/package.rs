//! Packages: their ids, versions, and the information a review records about
//! them.
use vstd::prelude::*;
use crate::text::str_eq;
use crate::version::Version;

verus! {

/// The `source` of packages from crates.io.
pub const SOURCE_CRATES_IO: &'static str = "https://crates.io";

/// A package: the registry it comes from and its name.
#[derive(Debug, PartialEq, Eq, Hash)]
pub struct PackageId {
    pub source: String,
    pub name: String,
}

impl View for PackageId {
    type V = (Seq<char>, Seq<char>);

    open spec fn view(&self) -> (Seq<char>, Seq<char>) {
        (self.source@, self.name@)
    }
}

impl Clone for PackageId {
    fn clone(&self) -> (r: Self)
        ensures
            r == *self,
            r@ == self@,
    {
        PackageId { source: self.source.clone(), name: self.name.clone() }
    }
}

impl PackageId {
    /// The same source and name.
    pub fn same_as(&self, other: &PackageId) -> (b: bool)
        ensures
            b == (self@ == other@),
    {
        str_eq(self.source.as_str(), other.source.as_str()) && str_eq(
            self.name.as_str(),
            other.name.as_str(),
        )
    }
}

/// A version of a package.
#[derive(Debug, PartialEq, Eq, Hash)]
pub struct PackageVersionId {
    pub id: PackageId,
    pub version: Version,
}

/// A version of a package as values.
pub type PackageVersionIdView = ((Seq<char>, Seq<char>), (u64, u64, u64, Seq<char>, Seq<char>));

impl View for PackageVersionId {
    type V = PackageVersionIdView;

    open spec fn view(&self) -> PackageVersionIdView {
        (self.id@, self.version@)
    }
}

impl PackageVersionId {
    /// The same package and version.
    pub fn same_as(&self, other: &PackageVersionId) -> (b: bool)
        ensures
            b == (self@ == other@),
    {
        self.id.same_as(&other.id) && self.version.same_as(&other.version)
    }
}

impl Clone for PackageVersionId {
    fn clone(&self) -> (r: Self)
        ensures
            r@ == self@,
    {
        PackageVersionId { id: self.id.clone(), version: self.version.clone() }
    }
}

impl PackageVersionId {
    pub fn new(source: String, name: String, version: Version) -> (r: Self)
        ensures
            r.id.source == source && r.id.name == name && r.version == version,
    {
        PackageVersionId { id: PackageId { source, name }, version }
    }
}

/// The default digest type: `blake2b`.
pub open spec fn default_digest_type_text() -> Seq<char> {
    "blake2b"@
}

/// The default revision type: `git`.
pub open spec fn default_revision_type_text() -> Seq<char> {
    "git"@
}

/// Is `s` the default digest type?
pub fn equals_default_digest_type(s: &str) -> (r: bool)
    ensures
        r == (s@ == default_digest_type_text()),
{
    str_eq(s, "blake2b")
}

/// The default digest type.
pub fn default_digest_type() -> (s: String)
    ensures
        s@ == default_digest_type_text(),
{
    String::from_str("blake2b")
}

/// Is `s` the default revision type?
pub fn equals_default_revision_type(s: &str) -> (r: bool)
    ensures
        r == (s@ == default_revision_type_text()),
{
    str_eq(s, "git")
}

/// The default revision type.
pub fn default_revision_type() -> (s: String)
    ensures
        s@ == default_revision_type_text(),
{
    String::from_str("git")
}

/// What a review records of the package it reviewed.
#[derive(Debug, PartialEq)]
pub struct PackageInfo {
    pub id: PackageVersionId,
    pub revision: String,
    pub revision_type: String,
    pub digest: Vec<u8>,
    pub digest_type: String,
}

/// What a review records of a package, as values.
pub type PackageInfoView = (PackageVersionIdView, Seq<char>, Seq<char>, Seq<u8>, Seq<char>);

impl View for PackageInfo {
    type V = PackageInfoView;

    open spec fn view(&self) -> PackageInfoView {
        (self.id@, self.revision@, self.revision_type@, self.digest@, self.digest_type@)
    }
}

impl PackageInfo {
    /// The same package, version, revision and digest.
    pub fn same_as(&self, other: &PackageInfo) -> (b: bool)
        ensures
            b == (self@ == other@),
    {
        self.id.same_as(&other.id) && str_eq(self.revision.as_str(), other.revision.as_str())
            && str_eq(self.revision_type.as_str(), other.revision_type.as_str())
            && crate::id::bytes_match(self.digest.as_slice(), other.digest.as_slice())
            && str_eq(self.digest_type.as_str(), other.digest_type.as_str())
    }
}

impl Clone for PackageInfo {
    fn clone(&self) -> (r: Self)
        ensures
            r@ == self@,
    {
        let digest = self.digest.clone();
        assert(digest@ =~= self.digest@);
        PackageInfo {
            id: self.id.clone(),
            revision: self.revision.clone(),
            revision_type: self.revision_type.clone(),
            digest,
            digest_type: self.digest_type.clone(),
        }
    }
}

/// A revision in a version control system.
#[derive(Clone, Debug)]
pub struct Revision {
    pub revision: String,
    pub revision_type: String,
}

} // verus!
