//! Package review proofs: a review of one version of a package, with the
//! issues found in it and the advisories it gives for earlier versions.
use vstd::prelude::*;
use crate::error::{Error, ValidationError};
use crate::id::PublicId;
use crate::level::Level;
use crate::package::{PackageId, PackageInfo, PackageInfoView, PackageVersionId};
use crate::proofs::{
    ensure_kind_or_default_is, kind_or, kind_or_default, now, Common, CommonView,
    OriginalReference,
};
use crate::review::{review_none, Review};
use crate::text::{push_decimal, push_str, str_eq};
use crate::trust::{
    drafts_to_overrides, fresh_common, overrides_to_drafts, overrides_view,
    override_drafts_view, OverrideItem, OverrideItemDraft, OverrideView,
};
use crate::version::{semver_lt, Version};

verus! {

/// The versions of a package an advisory or an issue extends to, counted
/// from the version it was reported in.
#[derive(Debug, Copy, Clone, PartialEq, Eq, Structural, PartialOrd, Ord)]
pub enum VersionRange {
    Minor,
    Major,
    All,
}

/// The name of a version range as it is written in proofs.
pub open spec fn version_range_text(r: VersionRange) -> Seq<char> {
    match r {
        VersionRange::Minor => "minor"@,
        VersionRange::Major => "major"@,
        VersionRange::All => "all"@,
    }
}

/// The version range a text names.
pub open spec fn version_range_from_text(s: Seq<char>) -> Option<VersionRange> {
    if s == "all"@ {
        Some(VersionRange::All)
    } else if s == "major"@ {
        Some(VersionRange::Major)
    } else if s == "minor"@ {
        Some(VersionRange::Minor)
    } else {
        None
    }
}

impl Default for VersionRange {
    fn default() -> (r: Self)
        ensures
            r == VersionRange::All,
    {
        VersionRange::All
    }
}

/// A text that names no version range.
#[derive(Debug, Clone)]
pub struct VersionRangeParseError;

impl VersionRangeParseError {
    /// The message of the error.
    pub fn message(&self) -> (s: &'static str)
        ensures
            s@ == "Could not parse an incorrect advisory range value"@,
    {
        "Could not parse an incorrect advisory range value"
    }
}

impl VersionRange {
    /// The version range named by `s` (see [`version_range_from_text`]).
    pub fn parse(s: &str) -> (r: Result<VersionRange, VersionRangeParseError>)
        ensures
            r matches Ok(v) ==> version_range_from_text(s@) == Some(v),
            r is Err ==> version_range_from_text(s@) is None,
    {
        if str_eq(s, "all") {
            Ok(VersionRange::All)
        } else if str_eq(s, "major") {
            Ok(VersionRange::Major)
        } else if str_eq(s, "minor") {
            Ok(VersionRange::Minor)
        } else {
            Err(VersionRangeParseError)
        }
    }

    /// The name of the range (see [`version_range_text`]).
    pub fn as_str(&self) -> (s: &'static str)
        ensures
            s@ == version_range_text(*self),
    {
        match self {
            VersionRange::Minor => "minor",
            VersionRange::Major => "major",
            VersionRange::All => "all",
        }
    }

    /// The range that proofs assume when they name none.
    pub fn all() -> (r: Self)
        ensures
            r == VersionRange::All,
    {
        VersionRange::All
    }

    /// Is this the range proofs assume when they name none?
    pub fn is_all_ref(&self) -> (b: bool)
        ensures
            b == (*self == VersionRange::All),
    {
        *self == VersionRange::All
    }
}

impl std::str::FromStr for VersionRange {
    type Err = VersionRangeParseError;

    /// The value named by `s` (see [`version_range_from_text`]); an error where `s` names
    /// none.
    fn from_str(s: &str) -> (r: Result<VersionRange, VersionRangeParseError>)
        ensures
            r matches Ok(v) ==> version_range_from_text(s@) == Some(v),
            r is Err ==> version_range_from_text(s@) is None,
    {
        VersionRange::parse(s)
    }
}

/// The name of a version range reads back as that range.
pub proof fn lemma_version_range_text_roundtrip(r: VersionRange)
    ensures
        version_range_from_text(version_range_text(r)) == Some(r),
{
    reveal_strlit("all");
    reveal_strlit("major");
    reveal_strlit("minor");
    assert("all"@.len() == 3 && "major"@[1] == 'a' && "minor"@[1] == 'i');
}

/// A version as values: major, minor, patch, pre-release, build metadata.
pub type VersionView = (u64, u64, u64, Seq<char>, Seq<char>);

/// Is `for_v` within `range` of `in_v`: any version, the same major version,
/// or the same major and minor version?
pub open spec fn in_range(range: VersionRange, for_v: VersionView, in_v: VersionView) -> bool {
    match range {
        VersionRange::All => true,
        VersionRange::Major => for_v.0 == in_v.0,
        VersionRange::Minor => for_v.0 == in_v.0 && for_v.1 == in_v.1,
    }
}

/// Does an advisory reported in `in_v` apply to `for_v`: an earlier version
/// within its range.
pub open spec fn advisory_applies(range: VersionRange, for_v: VersionView, in_v: VersionView) -> bool {
    semver_lt(for_v, in_v) && in_range(range, for_v, in_v)
}

/// Does an issue reported in `in_v` apply to `for_v`: that version or a later
/// one within its range.
pub open spec fn issue_applies(range: VersionRange, for_v: VersionView, in_v: VersionView) -> bool {
    !semver_lt(for_v, in_v) && in_range(range, for_v, in_v)
}

/// Within its range, an advisory covers exactly the versions before the one it
/// was reported in, and an issue exactly the others: never both, one of them
/// always.
pub proof fn lemma_advisory_issue_split(range: VersionRange, for_v: VersionView, in_v: VersionView)
    ensures
        !(advisory_applies(range, for_v, in_v) && issue_applies(range, for_v, in_v)),
        advisory_applies(range, for_v, in_v) || issue_applies(range, for_v, in_v) <==> in_range(
            range,
            for_v,
            in_v,
        ),
        in_range(VersionRange::Minor, for_v, in_v) ==> in_range(VersionRange::Major, for_v, in_v),
        in_range(VersionRange::Major, for_v, in_v) ==> in_range(VersionRange::All, for_v, in_v),
{
}

fn in_range_exec(range: VersionRange, for_version: &Version, in_pkg_version: &Version) -> (b: bool)
    ensures
        b == in_range(range, for_version@, in_pkg_version@),
{
    match range {
        VersionRange::All => true,
        VersionRange::Major => in_pkg_version.major() == for_version.major(),
        VersionRange::Minor => in_pkg_version.major() == for_version.major()
            && in_pkg_version.minor() == for_version.minor(),
    }
}

/// An advice to upgrade to the version of the package it is given in: an
/// important fix went into that release, and the earlier ones within the
/// range were affected.
#[derive(Debug)]
pub struct Advisory {
    pub ids: Vec<String>,
    pub severity: Level,
    pub range: VersionRange,
    pub comment: String,
}

/// An advisory as values: its ids, severity, range and comment.
pub type AdvisoryView = (Seq<Seq<char>>, Level, VersionRange, Seq<char>);

/// The texts of a sequence of strings.
pub open spec fn strings_view(v: Seq<String>) -> Seq<Seq<char>> {
    v.map_values(|s: String| s@)
}

impl View for Advisory {
    type V = AdvisoryView;

    open spec fn view(&self) -> AdvisoryView {
        (strings_view(self.ids@), self.severity, self.range, self.comment@)
    }
}

fn clone_strings(v: &Vec<String>) -> (r: Vec<String>)
    ensures
        strings_view(r@) == strings_view(v@),
{
    let mut r: Vec<String> = Vec::new();
    let mut i: usize = 0;
    while i < v.len()
        invariant
            i <= v.len(),
            strings_view(r@) == strings_view(v@.take(i as int)),
        decreases v.len() - i,
    {
        r.push(v[i].clone());
        i = i + 1;
        assert(strings_view(v@.take(i as int)) =~= strings_view(v@.take(i - 1)).push(
            v@[i - 1]@,
        ));
        assert(strings_view(r@) =~= strings_view(v@.take(i as int)));
    }
    assert(v@.take(v.len() as int) == v@);
    r
}

impl Clone for Advisory {
    fn clone(&self) -> (r: Self)
        ensures
            r@ == self@,
    {
        Advisory {
            ids: clone_strings(&self.ids),
            severity: self.severity,
            range: self.range,
            comment: self.comment.clone(),
        }
    }
}

impl Default for Advisory {
    fn default() -> (a: Self)
        ensures
            a@ == (Seq::<Seq<char>>::empty(), Level::Medium, VersionRange::All, Seq::<char>::empty()),
    {
        let a = Advisory {
            ids: Vec::new(),
            severity: Level::default(),
            range: VersionRange::default(),
            comment: String::new(),
        };
        assert(strings_view(a.ids@) =~= Seq::<Seq<char>>::empty());
        a
    }
}

impl Advisory {
    /// An advisory with this range and nothing else.
    pub fn from(range: VersionRange) -> (a: Self)
        ensures
            a@ == (Seq::<Seq<char>>::empty(), Level::Medium, range, Seq::<char>::empty()),
    {
        let mut a = Advisory::default();
        a.range = range;
        a
    }

    /// Does this advisory, given in version `in_pkg_version`, apply to
    /// `for_version` (see [`advisory_applies`])?
    pub fn is_for_version_when_reported_in_version(
        &self,
        for_version: &Version,
        in_pkg_version: &Version,
    ) -> (b: bool)
        ensures
            b == advisory_applies(self.range, for_version@, in_pkg_version@),
    {
        for_version.lt(in_pkg_version) && in_range_exec(self.range, for_version, in_pkg_version)
    }
}

/// A problem with a version of a package. It is open for all later versions
/// within its range until an advisory with the same id is given.
#[derive(Debug)]
pub struct Issue {
    pub id: String,
    pub severity: Level,
    pub range: VersionRange,
    pub comment: String,
}

/// An issue as values: its id, severity, range and comment.
pub type IssueView = (Seq<char>, Level, VersionRange, Seq<char>);

impl View for Issue {
    type V = IssueView;

    open spec fn view(&self) -> IssueView {
        (self.id@, self.severity, self.range, self.comment@)
    }
}

impl Clone for Issue {
    fn clone(&self) -> (r: Self)
        ensures
            r@ == self@,
    {
        Issue {
            id: self.id.clone(),
            severity: self.severity,
            range: self.range,
            comment: self.comment.clone(),
        }
    }
}

impl Issue {
    /// An issue with this id, of medium severity, for all versions.
    pub fn new(id: String) -> (i: Self)
        ensures
            i@ == (id@, Level::Medium, VersionRange::All, Seq::<char>::empty()),
    {
        Issue { id, range: VersionRange::default(), severity: Level::default(), comment: String::new() }
    }

    /// An issue with this id and severity, for all versions.
    pub fn new_with_severity(id: String, severity: Level) -> (i: Self)
        ensures
            i@ == (id@, severity, VersionRange::All, Seq::<char>::empty()),
    {
        Issue { id, range: VersionRange::default(), severity, comment: String::new() }
    }

    /// Does this issue, found in version `in_pkg_version`, apply to
    /// `for_version` (see [`issue_applies`])?
    pub fn is_for_version_when_reported_in_version(
        &self,
        for_version: &Version,
        in_pkg_version: &Version,
    ) -> (b: bool)
        ensures
            b == issue_applies(self.range, for_version@, in_pkg_version@),
    {
        !for_version.lt(in_pkg_version) && in_range_exec(self.range, for_version, in_pkg_version)
    }
}

/// Marks a review can put on a package.
#[derive(Debug, Copy, Clone, PartialEq, Eq, Structural)]
pub struct Flags {
    pub unmaintained: bool,
}

impl Default for Flags {
    fn default() -> (f: Self)
        ensures
            !f.unmaintained,
    {
        Flags { unmaintained: false }
    }
}

/// Flags of several reviews together: a flag is set where any review sets it.
pub open spec fn flags_add(a: Flags, b: Flags) -> Flags {
    Flags { unmaintained: a.unmaintained || b.unmaintained }
}

impl std::ops::Add<Flags> for Flags {
    type Output = Flags;

    fn add(self, other: Flags) -> (r: Flags)
        ensures
            r == flags_add(self, other),
    {
        Flags { unmaintained: self.unmaintained || other.unmaintained }
    }
}

impl vstd::std_specs::ops::AddSpecImpl<Flags> for Flags {
    open spec fn obeys_add_spec() -> bool {
        true
    }

    open spec fn add_req(self, rhs: Flags) -> bool {
        true
    }

    open spec fn add_spec(self, rhs: Flags) -> Flags {
        flags_add(self, rhs)
    }
}

/// Adding flags is commutative, associative and idempotent, and the default
/// flags change nothing.
pub proof fn lemma_flags_add(a: Flags, b: Flags, c: Flags)
    ensures
        flags_add(a, b) == flags_add(b, a),
        flags_add(flags_add(a, b), c) == flags_add(a, flags_add(b, c)),
        flags_add(a, a) == a,
        flags_add(a, Flags { unmaintained: false }) == a,
{
}

/// Like [`Flags`], but written out in full in a draft.
#[derive(Debug, Copy, Clone, PartialEq, Eq, Structural)]
pub struct FlagsDraft {
    pub unmaintained: bool,
}

impl Default for FlagsDraft {
    fn default() -> (f: Self)
        ensures
            !f.unmaintained,
    {
        FlagsDraft { unmaintained: false }
    }
}

impl From<FlagsDraft> for Flags {
    fn from(flags: FlagsDraft) -> (f: Flags)
        ensures
            f.unmaintained == flags.unmaintained,
    {
        Flags { unmaintained: flags.unmaintained }
    }
}

impl vstd::std_specs::convert::FromSpecImpl<FlagsDraft> for Flags {
    open spec fn obeys_from_spec() -> bool {
        true
    }

    open spec fn from_spec(flags: FlagsDraft) -> Flags {
        Flags { unmaintained: flags.unmaintained }
    }
}

impl From<Flags> for FlagsDraft {
    fn from(flags: Flags) -> (f: FlagsDraft)
        ensures
            f.unmaintained == flags.unmaintained,
    {
        FlagsDraft { unmaintained: flags.unmaintained }
    }
}

impl vstd::std_specs::convert::FromSpecImpl<Flags> for FlagsDraft {
    open spec fn obeys_from_spec() -> bool {
        true
    }

    open spec fn from_spec(flags: Flags) -> FlagsDraft {
        FlagsDraft { unmaintained: flags.unmaintained }
    }
}

/// The serialization version of package review proofs written now.
pub const CURRENT_PACKAGE_REVIEW_PROOF_SERIALIZATION_VERSION: i64 = -1;

/// The serialization version of package review proofs written now.
pub fn cur_version() -> (v: i64)
    ensures
        v == CURRENT_PACKAGE_REVIEW_PROOF_SERIALIZATION_VERSION,
{
    CURRENT_PACKAGE_REVIEW_PROOF_SERIALIZATION_VERSION
}

/// The views of a sequence of package ids.
pub open spec fn package_ids_view(v: Seq<PackageId>) -> Seq<(Seq<char>, Seq<char>)> {
    v.map_values(|p: PackageId| p@)
}

/// The views of a sequence of issues.
pub open spec fn issues_view(v: Seq<Issue>) -> Seq<IssueView> {
    v.map_values(|i: Issue| i@)
}

/// The views of a sequence of advisories.
pub open spec fn advisories_view(v: Seq<Advisory>) -> Seq<AdvisoryView> {
    v.map_values(|a: Advisory| a@)
}

pub(crate) fn clone_package_ids(v: &Vec<PackageId>) -> (r: Vec<PackageId>)
    ensures
        package_ids_view(r@) == package_ids_view(v@),
{
    let mut r: Vec<PackageId> = Vec::new();
    let mut i: usize = 0;
    while i < v.len()
        invariant
            i <= v.len(),
            package_ids_view(r@) == package_ids_view(v@.take(i as int)),
        decreases v.len() - i,
    {
        r.push(v[i].clone());
        i = i + 1;
        assert(package_ids_view(v@.take(i as int)) =~= package_ids_view(v@.take(i - 1)).push(
            v@[i - 1]@,
        ));
        assert(package_ids_view(r@) =~= package_ids_view(v@.take(i as int)));
    }
    assert(v@.take(v.len() as int) == v@);
    r
}

fn clone_issues(v: &Vec<Issue>) -> (r: Vec<Issue>)
    ensures
        issues_view(r@) == issues_view(v@),
{
    let mut r: Vec<Issue> = Vec::new();
    let mut i: usize = 0;
    while i < v.len()
        invariant
            i <= v.len(),
            issues_view(r@) == issues_view(v@.take(i as int)),
        decreases v.len() - i,
    {
        r.push(v[i].clone());
        i = i + 1;
        assert(issues_view(v@.take(i as int)) =~= issues_view(v@.take(i - 1)).push(v@[i - 1]@));
        assert(issues_view(r@) =~= issues_view(v@.take(i as int)));
    }
    assert(v@.take(v.len() as int) == v@);
    r
}

fn clone_advisories(v: &Vec<Advisory>) -> (r: Vec<Advisory>)
    ensures
        advisories_view(r@) == advisories_view(v@),
{
    let mut r: Vec<Advisory> = Vec::new();
    let mut i: usize = 0;
    while i < v.len()
        invariant
            i <= v.len(),
            advisories_view(r@) == advisories_view(v@.take(i as int)),
        decreases v.len() - i,
    {
        r.push(v[i].clone());
        i = i + 1;
        assert(advisories_view(v@.take(i as int)) =~= advisories_view(v@.take(i - 1)).push(
            v@[i - 1]@,
        ));
        assert(advisories_view(r@) =~= advisories_view(v@.take(i as int)));
    }
    assert(v@.take(v.len() as int) == v@);
    r
}

/// Each package id of `s` once, in the order of their first appearance.
pub open spec fn each_once(s: Seq<(Seq<char>, Seq<char>)>) -> Seq<(Seq<char>, Seq<char>)>
    decreases s.len(),
{
    if s.len() == 0 {
        Seq::empty()
    } else {
        let r = each_once(s.drop_last());
        if r.contains(s.last()) {
            r
        } else {
            r.push(s.last())
        }
    }
}

/// Pushing an item a sequence without duplicates lacks keeps it so.
proof fn lemma_push_distinct(r: Seq<(Seq<char>, Seq<char>)>, a: (Seq<char>, Seq<char>))
    requires
        r.no_duplicates(),
        !r.contains(a),
    ensures
        r.push(a).no_duplicates(),
{
    let t = r.push(a);
    assert forall|i: int, j: int| 0 <= i < t.len() && 0 <= j < t.len() && i != j implies t[i]
        != t[j] by {
        if i == r.len() {
            assert(t[j] == r[j]);
        } else if j == r.len() {
            assert(t[i] == r[i]);
        } else {
            assert(t[i] == r[i] && t[j] == r[j]);
        }
    }
}

/// [`each_once`] leaves no item twice, and leaves a sequence without
/// duplicates as it is.
pub proof fn lemma_each_once(s: Seq<(Seq<char>, Seq<char>)>)
    ensures
        each_once(s).no_duplicates(),
        s.no_duplicates() ==> each_once(s) == s,
    decreases s.len(),
{
    if s.len() > 0 {
        let p = s.drop_last();
        lemma_each_once(p);
        if !each_once(p).contains(s.last()) {
            lemma_push_distinct(each_once(p), s.last());
        }
        if s.no_duplicates() {
            assert(p.no_duplicates());
            assert(!p.contains(s.last())) by {
                if p.contains(s.last()) {
                    let k = choose|k: int| 0 <= k < p.len() && p[k] == s.last();
                    assert(s[k] == s[s.len() - 1]);
                }
            }
            assert(p.push(s.last()) =~= s);
        }
    }
}

/// A set of package ids, as a review's alternatives are: no id twice, kept
/// in the order they were added.
#[derive(Debug, PartialEq)]
pub struct PackageIdSet {
    ids: Vec<PackageId>,
}

impl View for PackageIdSet {
    type V = Seq<(Seq<char>, Seq<char>)>;

    closed spec fn view(&self) -> Seq<(Seq<char>, Seq<char>)> {
        package_ids_view(self.ids@)
    }
}

impl PackageIdSet {
    /// No id is in the set twice.
    #[verifier::type_invariant]
    pub open spec fn distinct(&self) -> bool {
        self@.no_duplicates()
    }

    /// The empty set.
    pub fn new() -> (r: Self)
        ensures
            r@ == Seq::<(Seq<char>, Seq<char>)>::empty(),
    {
        let r = PackageIdSet { ids: Vec::new() };
        assert(r@ =~= Seq::<(Seq<char>, Seq<char>)>::empty());
        r
    }

    /// The ids of `v`, each once, in the order of their first appearance.
    pub fn from_vec(v: Vec<PackageId>) -> (r: Self)
        ensures
            r@ == each_once(package_ids_view(v@)),
    {
        let mut ids: Vec<PackageId> = Vec::new();
        let mut i: usize = 0;
        while i < v.len()
            invariant
                i <= v.len(),
                package_ids_view(ids@) == each_once(package_ids_view(v@.take(i as int))),
            decreases v.len() - i,
        {
            let ghost pre = package_ids_view(v@.take(i as int));
            let ghost cur = package_ids_view(v@.take(i + 1));
            assert(cur.drop_last() =~= pre);
            assert(cur.last() == v@[i as int]@);
            if !contains_package_id(&ids, &v[i]) {
                let ghost old_ids = ids@;
                ids.push(v[i].clone());
                assert(package_ids_view(ids@) =~= package_ids_view(old_ids).push(v@[i as int]@));
            }
            i = i + 1;
        }
        assert(v@.take(v.len() as int) == v@);
        proof {
            lemma_each_once(package_ids_view(v@));
        }
        PackageIdSet { ids }
    }

    /// How many ids the set holds.
    pub fn len(&self) -> (n: usize)
        ensures
            n == self@.len(),
    {
        self.ids.len()
    }

    /// Does the set hold no id?
    pub fn is_empty(&self) -> (b: bool)
        ensures
            b == (self@.len() == 0),
    {
        self.ids.len() == 0
    }

    /// Is `id` in the set?
    pub fn contains(&self, id: &PackageId) -> (b: bool)
        ensures
            b == self@.contains(id@),
    {
        contains_package_id(&self.ids, id)
    }

    /// Adds `id` unless the set holds it; whether it was added.
    pub fn insert(&mut self, id: PackageId) -> (added: bool)
        ensures
            added == !old(self)@.contains(id@),
            final(self)@ == if added {
                old(self)@.push(id@)
            } else {
                old(self)@
            },
    {
        proof {
            use_type_invariant(&*self);
        }
        if contains_package_id(&self.ids, &id) {
            false
        } else {
            let ghost before = self@;
            proof {
                lemma_push_distinct(before, id@);
            }
            let mut ids: Vec<PackageId> = Vec::new();
            std::mem::swap(&mut ids, &mut self.ids);
            let ghost old_ids = ids@;
            ids.push(id);
            assert(package_ids_view(ids@) =~= package_ids_view(old_ids).push(id@));
            self.ids = ids;
            true
        }
    }

    /// The ids, in the order they were added.
    pub fn to_vec(&self) -> (v: Vec<PackageId>)
        ensures
            package_ids_view(v@) == self@,
    {
        clone_package_ids(&self.ids)
    }

    /// The ids, in the order they were added.
    pub fn into_vec(self) -> (v: Vec<PackageId>)
        ensures
            package_ids_view(v@) == self@,
    {
        self.ids
    }
}

impl Clone for PackageIdSet {
    fn clone(&self) -> (r: Self)
        ensures
            r@ == self@,
    {
        proof {
            use_type_invariant(self);
        }
        PackageIdSet { ids: clone_package_ids(&self.ids) }
    }
}

/// The body of a package review proof.
#[derive(Debug)]
pub struct Package {
    pub common: Common,
    pub package: PackageInfo,
    pub diff_base: Option<PackageInfo>,
    review: Review,
    pub issues: Vec<Issue>,
    pub advisories: Vec<Advisory>,
    pub flags: Flags,
    pub alternatives: PackageIdSet,
    pub comment: String,
    pub override_: Vec<OverrideItem>,
}

/// A package review proof as values.
pub struct PackageView {
    pub common: CommonView,
    pub package: PackageInfoView,
    pub diff_base: Option<PackageInfoView>,
    pub review: Review,
    pub issues: Seq<IssueView>,
    pub advisories: Seq<AdvisoryView>,
    pub flags: Flags,
    pub alternatives: Seq<(Seq<char>, Seq<char>)>,
    pub comment: Seq<char>,
    pub override_: Seq<OverrideView>,
}

impl View for Package {
    type V = PackageView;

    closed spec fn view(&self) -> PackageView {
        PackageView {
            common: self.common@,
            package: self.package@,
            diff_base: match self.diff_base {
                Some(d) => Some(d@),
                None => None,
            },
            review: self.review,
            issues: issues_view(self.issues@),
            advisories: advisories_view(self.advisories@),
            flags: self.flags,
            alternatives: self.alternatives@,
            comment: self.comment@,
            override_: overrides_view(self.override_@),
        }
    }
}

impl Clone for Package {
    fn clone(&self) -> (r: Self)
        ensures
            r@ == self@,
    {
        let o = overrides_to_drafts(&self.override_);
        Package {
            common: self.common.clone(),
            package: self.package.clone(),
            diff_base: match &self.diff_base {
                Some(d) => Some(d.clone()),
                None => None,
            },
            review: self.review,
            issues: clone_issues(&self.issues),
            advisories: clone_advisories(&self.advisories),
            flags: self.flags,
            alternatives: self.alternatives.clone(),
            comment: self.comment.clone(),
            override_: drafts_to_overrides(&o),
        }
    }
}

/// The kind of package review proofs.
pub open spec fn package_kind() -> Seq<char> {
    "package review"@
}

/// The first alternative with an empty source or name, as the error it gives.
pub open spec fn alternatives_error(s: Seq<(Seq<char>, Seq<char>)>) -> Option<ValidationError>
    decreases s.len(),
{
    if s.len() == 0 {
        None
    } else if s[0].0.len() == 0 {
        Some(ValidationError::AlternativeSourceCanNotBeEmpty)
    } else if s[0].1.len() == 0 {
        Some(ValidationError::AlternativeNameCanNotBeEmpty)
    } else {
        alternatives_error(s.drop_first())
    }
}

/// The error of an issue with an empty id, if there is one.
pub open spec fn issues_error(s: Seq<IssueView>) -> Option<ValidationError> {
    if exists|i: int| 0 <= i < s.len() && (#[trigger] s[i]).0.len() == 0 {
        Some(ValidationError::IssuesWithAnEmptyIDFieldAreNotAllowed)
    } else {
        None
    }
}

/// The error of the first advisory with no ids or an empty id.
pub open spec fn advisories_error(s: Seq<AdvisoryView>) -> Option<ValidationError>
    decreases s.len(),
{
    if s.len() == 0 {
        None
    } else if s[0].0.len() == 0 {
        Some(ValidationError::AdvisoriesWithNoIDSAreNotAllowed)
    } else if exists|j: int| 0 <= j < s[0].0.len() && (#[trigger] s[0].0[j]).len() == 0 {
        Some(ValidationError::AdvisoriesWithAnEmptyIDFieldAreNotAllowed)
    } else {
        advisories_error(s.drop_first())
    }
}

/// What is wrong with the data of a package review besides its kind: the
/// alternatives are checked first, then the issues, then the advisories.
pub open spec fn package_data_error(p: PackageView) -> Option<ValidationError> {
    match alternatives_error(p.alternatives) {
        Some(e) => Some(e),
        None => match issues_error(p.issues) {
            Some(e) => Some(e),
            None => advisories_error(p.advisories),
        },
    }
}

/// A package review is valid when its kind (`package review` where the body
/// names none) is right, its data has no error, and it names no alternative
/// twice (which the set of alternatives rules out).
pub open spec fn package_valid(p: PackageView) -> bool {
    &&& kind_or(p.common.kind, package_kind()) == package_kind()
    &&& package_data_error(p) is None
    &&& p.alternatives.no_duplicates()
}

fn check_alternatives(v: &Vec<PackageId>) -> (r: Result<(), ValidationError>)
    ensures
        r == match alternatives_error(package_ids_view(v@)) {
            None => Ok::<(), ValidationError>(()),
            Some(e) => Err(e),
        },
{
    let ghost s = package_ids_view(v@);
    let mut i: usize = 0;
    assert(s.skip(0) == s);
    while i < v.len()
        invariant
            i <= v.len(),
            s == package_ids_view(v@),
            alternatives_error(s) == alternatives_error(s.skip(i as int)),
        decreases v.len() - i,
    {
        let ghost rest = s.skip(i as int);
        assert(rest[0] == v@[i as int]@);
        if v[i].source.as_str().is_empty() {
            return Err(ValidationError::AlternativeSourceCanNotBeEmpty);
        }
        if v[i].name.as_str().is_empty() {
            return Err(ValidationError::AlternativeNameCanNotBeEmpty);
        }
        assert(rest.drop_first() == s.skip(i + 1));
        i = i + 1;
    }
    assert(s.skip(v.len() as int).len() == 0);
    Ok(())
}

fn check_issues(v: &Vec<Issue>) -> (r: Result<(), ValidationError>)
    ensures
        r == match issues_error(issues_view(v@)) {
            None => Ok::<(), ValidationError>(()),
            Some(e) => Err(e),
        },
{
    let ghost s = issues_view(v@);
    let mut i: usize = 0;
    while i < v.len()
        invariant
            i <= v.len(),
            s == issues_view(v@),
            forall|k: int| 0 <= k < i ==> (#[trigger] s[k]).0.len() > 0,
        decreases v.len() - i,
    {
        assert(s[i as int] == v@[i as int]@);
        if v[i].id.as_str().is_empty() {
            return Err(ValidationError::IssuesWithAnEmptyIDFieldAreNotAllowed);
        }
        i = i + 1;
    }
    Ok(())
}

fn has_empty_string(v: &Vec<String>) -> (b: bool)
    ensures
        b == exists|j: int| 0 <= j < v@.len() && (#[trigger] strings_view(v@)[j]).len() == 0,
{
    let mut i: usize = 0;
    while i < v.len()
        invariant
            i <= v.len(),
            forall|k: int| 0 <= k < i ==> (#[trigger] strings_view(v@)[k]).len() > 0,
        decreases v.len() - i,
    {
        if v[i].as_str().is_empty() {
            assert(strings_view(v@)[i as int].len() == 0);
            return true;
        }
        i = i + 1;
    }
    false
}

fn check_advisories(v: &Vec<Advisory>) -> (r: Result<(), ValidationError>)
    ensures
        r == match advisories_error(advisories_view(v@)) {
            None => Ok::<(), ValidationError>(()),
            Some(e) => Err(e),
        },
{
    let ghost s = advisories_view(v@);
    let mut i: usize = 0;
    assert(s.skip(0) == s);
    while i < v.len()
        invariant
            i <= v.len(),
            s == advisories_view(v@),
            advisories_error(s) == advisories_error(s.skip(i as int)),
        decreases v.len() - i,
    {
        let ghost rest = s.skip(i as int);
        assert(rest[0] == v@[i as int]@);
        if v[i].ids.len() == 0 {
            return Err(ValidationError::AdvisoriesWithNoIDSAreNotAllowed);
        }
        if has_empty_string(&v[i].ids) {
            return Err(ValidationError::AdvisoriesWithAnEmptyIDFieldAreNotAllowed);
        }
        assert(rest.drop_first() == s.skip(i + 1));
        i = i + 1;
    }
    assert(s.skip(v.len() as int).len() == 0);
    Ok(())
}

impl Package {
    pub const KIND: &'static str = "package review";

    /// The kind of the proof; `package review` where the body names none.
    pub fn kind(&self) -> (k: &str)
        ensures
            k@ == kind_or(self@.common.kind, package_kind()),
    {
        kind_or_default(&self.common, "package review")
    }

    /// Checks the data of the proof: its kind, then each alternative (no
    /// empty source or name), each issue (no empty id), each advisory (some
    /// ids, none empty).
    pub fn validate_data(&self) -> (r: Result<(), ValidationError>)
        ensures
            r is Ok <==> package_valid(self@),
            kind_or(self@.common.kind, package_kind()) != package_kind() ==> (r matches Err(
                ValidationError::InvalidKind(a, b),
            ) && a@ == kind_or(self@.common.kind, package_kind()) && b@ == package_kind()),
            kind_or(self@.common.kind, package_kind()) == package_kind() ==> r == match package_data_error(
                self@,
            ) {
                None => Ok::<(), ValidationError>(()),
                Some(e) => Err(e),
            },
    {
        proof {
            use_type_invariant(&self.alternatives);
        }
        ensure_kind_or_default_is(&self.common, "package review", "package review")?;
        check_alternatives(&self.alternatives.ids)?;
        check_issues(&self.issues)?;
        check_advisories(&self.advisories)?;
        Ok(())
    }

    /// Is there an advisory in this review, given in the reviewed version,
    /// that applies to `version` (see [`advisory_applies`])?
    pub fn is_advisory_for(&self, version: &Version) -> (b: bool)
        ensures
            b == exists|i: int|
                0 <= i < self@.advisories.len() && advisory_applies(
                    (#[trigger] self@.advisories[i]).2,
                    version@,
                    self@.package.0.1,
                ),
    {
        let mut i: usize = 0;
        while i < self.advisories.len()
            invariant
                i <= self.advisories.len(),
                forall|k: int|
                    0 <= k < i ==> !advisory_applies(
                        (#[trigger] advisories_view(self.advisories@)[k]).2,
                        version@,
                        self.package.id.version@,
                    ),
            decreases self.advisories.len() - i,
        {
            if self.advisories[i].is_for_version_when_reported_in_version(
                version,
                &self.package.id.version,
            ) {
                assert(advisories_view(self.advisories@)[i as int] == self.advisories@[i as int]@);
                assert(self@.advisories[i as int] == self.advisories@[i as int]@);
                assert(advisory_applies(self@.advisories[i as int].2, version@, self@.package.0.1));
                return true;
            }
            assert(advisories_view(self.advisories@)[i as int] == self.advisories@[i as int]@);
            i = i + 1;
        }
        false
    }

    /// The author, date and kind of the review.
    pub fn common(&self) -> (c: &Common)
        ensures
            c@ == self@.common,
    {
        &self.common
    }

    /// The package version the review is of.
    pub fn package_info(&self) -> (p: &PackageInfo)
        ensures
            p@ == self@.package,
    {
        &self.package
    }

    /// The review, unless it is the empty one.
    pub fn review(&self) -> (r: Option<&Review>)
        ensures
            r is None <==> self@.review == review_none(),
            r matches Some(v) ==> *v == self@.review,
    {
        if self.review.is_none() {
            None
        } else {
            Some(&self.review)
        }
    }

    /// The review, which may be the empty one.
    pub fn review_possibly_none(&self) -> (r: &Review)
        ensures
            *r == self@.review,
    {
        &self.review
    }

    /// The review, to change it.
    pub fn review_possibly_none_mut(&mut self) -> (r: &mut Review)
        ensures
            *r == old(self)@.review,
            final(self)@ == (PackageView { review: *final(r), ..old(self)@ }),
    {
        &mut self.review
    }

    /// Sets the date of the proof to now.
    pub fn touch_date(&mut self)
        ensures
            final(self)@ == (PackageView {
                common: CommonView { date: final(self)@.common.date, ..old(self)@.common },
                ..old(self)@
            }),
            final(self)@.common.date.wf(),
    {
        self.common.date = now();
    }

    /// Sets the author of the proof.
    pub fn change_from(&mut self, id: PublicId)
        ensures
            final(self)@ == (PackageView {
                common: CommonView { from: id@, ..old(self)@.common },
                ..old(self)@
            }),
    {
        self.common.from = id;
    }

    /// Records the proof this one reissues.
    pub fn set_original_reference(&mut self, orig_reference: OriginalReference)
        ensures
            final(self)@ == (PackageView {
                common: CommonView { original: Some(orig_reference@), ..old(self)@.common },
                ..old(self)@
            }),
    {
        self.common.original = Some(orig_reference);
    }

    /// Writes the kind into a body that names none (the legacy format).
    pub fn ensure_kind_is_backfilled(&mut self)
        ensures
            final(self)@ == (PackageView {
                common: CommonView {
                    kind: Some(kind_or(old(self)@.common.kind, package_kind())),
                    ..old(self)@.common
                },
                ..old(self)@
            }),
    {
        if self.common.kind.is_none() {
            self.common.kind = Some(String::from_str("package review"));
        }
    }

    /// The title of the draft of this proof: the package and its version.
    pub fn draft_title(&self) -> (s: String)
        ensures
            s@ == "Package Review of "@ + self@.package.0.0.1 + seq![' '] + crate::version::version_text(
                self@.package.0.1,
            ),
    {
        let mut s = String::from_str("Package Review of ");
        push_str(&mut s, self.package.id.id.name.as_str());
        s.push(' ');
        let v = self.package.id.version.to_string();
        push_str(&mut s, v.as_str());
        s
    }
}

/// Like [`Package`], but only what is edited interactively.
#[derive(Debug)]
pub struct PackageDraft {
    pub review: Review,
    pub advisories: Vec<Advisory>,
    pub issues: Vec<Issue>,
    pub comment: String,
    pub flags: FlagsDraft,
    pub alternatives: Vec<PackageId>,
    pub override_: Vec<OverrideItemDraft>,
}

/// A package review draft as values.
pub struct PackageDraftView {
    pub review: Review,
    pub advisories: Seq<AdvisoryView>,
    pub issues: Seq<IssueView>,
    pub comment: Seq<char>,
    pub unmaintained: bool,
    pub alternatives: Seq<(Seq<char>, Seq<char>)>,
    pub override_: Seq<OverrideView>,
}

impl View for PackageDraft {
    type V = PackageDraftView;

    open spec fn view(&self) -> PackageDraftView {
        PackageDraftView {
            review: self.review,
            advisories: advisories_view(self.advisories@),
            issues: issues_view(self.issues@),
            comment: self.comment@,
            unmaintained: self.flags.unmaintained,
            alternatives: package_ids_view(self.alternatives@),
            override_: override_drafts_view(self.override_@),
        }
    }
}

/// The draft of a package review. Where it names no alternatives, the draft
/// offers one to fill in: the package's source with an empty name.
pub open spec fn package_draft_of(p: PackageView) -> PackageDraftView {
    PackageDraftView {
        review: p.review,
        advisories: p.advisories,
        issues: p.issues,
        comment: p.comment,
        unmaintained: p.flags.unmaintained,
        alternatives: if p.alternatives.len() == 0 {
            seq![(p.package.0.0.0, Seq::<char>::empty())]
        } else {
            p.alternatives
        },
        override_: p.override_,
    }
}

/// The alternatives a draft leaves: those with a name, each once, in the
/// order of their first appearance.
pub open spec fn kept_alternatives(s: Seq<(Seq<char>, Seq<char>)>) -> Seq<(Seq<char>, Seq<char>)>
    decreases s.len(),
{
    if s.len() == 0 {
        Seq::empty()
    } else {
        let r = kept_alternatives(s.drop_last());
        let a = s.last();
        if a.1.len() == 0 || r.contains(a) {
            r
        } else {
            r.push(a)
        }
    }
}

/// A package review with the edited part replaced by a draft.
pub open spec fn package_with_draft(p: PackageView, d: PackageDraftView) -> PackageView {
    PackageView {
        review: d.review,
        comment: d.comment,
        advisories: d.advisories,
        issues: d.issues,
        alternatives: kept_alternatives(d.alternatives),
        flags: Flags { unmaintained: d.unmaintained },
        override_: d.override_,
        ..p
    }
}

/// Is `a` among the package ids in `v`?
fn contains_package_id(v: &Vec<PackageId>, a: &PackageId) -> (b: bool)
    ensures
        b == package_ids_view(v@).contains(a@),
{
    let mut i: usize = 0;
    while i < v.len()
        invariant
            i <= v.len(),
            forall|k: int| 0 <= k < i ==> (#[trigger] package_ids_view(v@)[k]) != a@,
        decreases v.len() - i,
    {
        if v[i].same_as(a) {
            assert(package_ids_view(v@)[i as int] == a@);
            return true;
        }
        i = i + 1;
    }
    false
}

fn keep_alternatives(v: &Vec<PackageId>) -> (r: Vec<PackageId>)
    ensures
        package_ids_view(r@) == kept_alternatives(package_ids_view(v@)),
{
    let mut r: Vec<PackageId> = Vec::new();
    let mut i: usize = 0;
    while i < v.len()
        invariant
            i <= v.len(),
            package_ids_view(r@) == kept_alternatives(package_ids_view(v@.take(i as int))),
        decreases v.len() - i,
    {
        let ghost pre = package_ids_view(v@.take(i as int));
        let ghost cur = package_ids_view(v@.take(i + 1));
        assert(cur.drop_last() =~= pre);
        assert(cur.last() == v@[i as int]@);
        if !v[i].name.as_str().is_empty() && !contains_package_id(&r, &v[i]) {
            let ghost old_r = r@;
            r.push(v[i].clone());
            assert(package_ids_view(r@) =~= package_ids_view(old_r).push(v@[i as int]@));
        }
        i = i + 1;
    }
    assert(v@.take(v.len() as int) == v@);
    r
}

impl PackageDraft {
    /// The draft of a package review (see [`package_draft_of`]).
    pub fn from(package: Package) -> (d: PackageDraft)
        ensures
            d@ == package_draft_of(package@),
    {
        let alternatives = if package.alternatives.len() == 0 {
            let mut v: Vec<PackageId> = Vec::new();
            v.push(PackageId { source: package.package.id.id.source.clone(), name: String::new() });
            assert(package_ids_view(v@) =~= seq![
                (package@.package.0.0.0, Seq::<char>::empty()),
            ]);
            v
        } else {
            package.alternatives.into_vec()
        };
        let override_ = overrides_to_drafts(&package.override_);
        PackageDraft {
            review: package.review,
            advisories: package.advisories,
            issues: package.issues,
            comment: package.comment,
            flags: FlagsDraft::from(package.flags),
            alternatives,
            override_,
        }
    }
}

impl Package {
    /// The proof with the edited part taken from `draft` (see
    /// [`package_with_draft`]), if the result is valid.
    pub fn apply_draft(&self, draft: PackageDraft) -> (r: Result<Package, Error>)
        ensures
            r matches Ok(p) ==> p@ == package_with_draft(self@, draft@),
            r is Ok <==> package_valid(package_with_draft(self@, draft@)),
            r matches Err(e) ==> e matches Error::Validation(v) && (kind_or(
                self@.common.kind,
                package_kind(),
            ) == package_kind() ==> package_data_error(package_with_draft(self@, draft@)) == Some(
                v,
            )) && (kind_or(self@.common.kind, package_kind()) != package_kind() ==> (v matches ValidationError::InvalidKind(
                a,
                b,
            ) && a@ == kind_or(self@.common.kind, package_kind()) && b@ == package_kind())),
    {
        let mut package = self.clone();
        package.review = draft.review;
        package.comment = draft.comment;
        package.advisories = draft.advisories;
        package.issues = draft.issues;
        let kept = keep_alternatives(&draft.alternatives);
        proof {
            lemma_kept_alternatives_distinct(package_ids_view(draft.alternatives@));
            lemma_each_once(package_ids_view(kept@));
        }
        package.alternatives = PackageIdSet::from_vec(kept);
        package.flags = Flags::from(draft.flags);
        package.override_ = drafts_to_overrides(&draft.override_);
        match package.validate_data() {
            Ok(()) => Ok(package),
            Err(e) => Err(Error::Validation(e)),
        }
    }
}

proof fn lemma_kept_alternatives_distinct(s: Seq<(Seq<char>, Seq<char>)>)
    ensures
        kept_alternatives(s).no_duplicates(),
    decreases s.len(),
{
    if s.len() > 0 {
        let r = kept_alternatives(s.drop_last());
        lemma_kept_alternatives_distinct(s.drop_last());
        if !(s.last().1.len() == 0 || r.contains(s.last())) {
            lemma_push_distinct(r, s.last());
        }
    }
}

proof fn lemma_alternatives_named(s: Seq<(Seq<char>, Seq<char>)>)
    requires
        alternatives_error(s) is None,
    ensures
        forall|i: int| 0 <= i < s.len() ==> (#[trigger] s[i]).1.len() > 0,
    decreases s.len(),
{
    if s.len() > 0 {
        lemma_alternatives_named(s.drop_first());
        assert forall|i: int| 0 <= i < s.len() implies (#[trigger] s[i]).1.len() > 0 by {
            if i > 0 {
                assert(s[i] == s.drop_first()[i - 1]);
            }
        }
    }
}

proof fn lemma_kept_alternatives_unchanged(s: Seq<(Seq<char>, Seq<char>)>)
    requires
        forall|i: int| 0 <= i < s.len() ==> (#[trigger] s[i]).1.len() > 0,
        s.no_duplicates(),
    ensures
        kept_alternatives(s) == s,
    decreases s.len(),
{
    if s.len() > 0 {
        let p = s.drop_last();
        assert forall|i: int| 0 <= i < p.len() implies (#[trigger] p[i]).1.len() > 0 by {
            assert(p[i] == s[i]);
        }
        assert(p.no_duplicates());
        lemma_kept_alternatives_unchanged(p);
        assert(!p.contains(s.last())) by {
            if p.contains(s.last()) {
                let k = choose|k: int| 0 <= k < p.len() && p[k] == s.last();
                assert(s[k] == s[s.len() - 1]);
            }
        }
        assert(p.push(s.last()) =~= s);
    }
}

/// Applying the draft of a valid package review gives the same review back.
pub proof fn lemma_package_draft_roundtrip(p: PackageView)
    requires
        package_valid(p),
    ensures
        package_with_draft(p, package_draft_of(p)) == p,
        package_valid(package_with_draft(p, package_draft_of(p))),
{
    let d = package_draft_of(p);
    if p.alternatives.len() == 0 {
        let one = seq![(p.package.0.0.0, Seq::<char>::empty())];
        assert(one.drop_last() =~= Seq::<(Seq<char>, Seq<char>)>::empty());
        assert(kept_alternatives(one.drop_last()) == Seq::<(Seq<char>, Seq<char>)>::empty());
        assert(kept_alternatives(one) =~= p.alternatives);
    } else {
        lemma_alternatives_named(p.alternatives);
        lemma_kept_alternatives_unchanged(p.alternatives);
    }
    assert(package_with_draft(p, d) =~= p);
}

/// Builds a [`Package`] field by field; `common` and `package` must be set,
/// the others have defaults.
#[derive(Debug)]
pub struct PackageBuilder {
    pub common: Option<Common>,
    pub package: Option<PackageInfo>,
    pub diff_base: Option<Option<PackageInfo>>,
    pub review: Option<Review>,
    pub issues: Option<Vec<Issue>>,
    pub advisories: Option<Vec<Advisory>>,
    pub flags: Option<Flags>,
    pub alternatives: Option<Vec<PackageId>>,
    pub comment: Option<String>,
    pub override_: Option<Vec<OverrideItem>>,
}

impl Default for PackageBuilder {
    fn default() -> (b: Self)
        ensures
            b.common is None && b.package is None && b.diff_base is None && b.review is None
                && b.issues is None && b.advisories is None && b.flags is None
                && b.alternatives is None && b.comment is None && b.override_ is None,
    {
        PackageBuilder {
            common: None,
            package: None,
            diff_base: None,
            review: None,
            issues: None,
            advisories: None,
            flags: None,
            alternatives: None,
            comment: None,
            override_: None,
        }
    }
}

impl PackageBuilder {
    /// Sets the author: in the common part if there is one, else in a new
    /// common part dated now.
    pub fn from(&mut self, value: PublicId) -> (r: &mut Self)
        ensures
            match old(self).common {
                Some(c) => r.common matches Some(n) && n@ == CommonView { from: value@, ..c@ },
                None => r.common matches Some(n) && fresh_common(
                    n@,
                    package_kind(),
                    CURRENT_PACKAGE_REVIEW_PROOF_SERIALIZATION_VERSION,
                    value@,
                ),
            },
            r.package == old(self).package && r.diff_base == old(self).diff_base && r.review
                == old(self).review && r.issues == old(self).issues && r.advisories == old(
                self,
            ).advisories && r.flags == old(self).flags && r.alternatives == old(self).alternatives
                && r.comment == old(self).comment && r.override_ == old(self).override_,
            *final(self) == *final(r),
    {
        match &mut self.common {
            Some(common) => {
                common.from = value;
            },
            None => {
                self.common = Some(
                    Common {
                        kind: Some(String::from_str("package review")),
                        version: cur_version(),
                        date: now(),
                        from: value,
                        original: None,
                    },
                );
            },
        }
        self
    }

    pub fn package(&mut self, value: PackageInfo) -> (r: &mut Self)
        ensures
            *r == (PackageBuilder { package: Some(value), ..*old(self) }),
            *final(self) == *final(r),
    {
        self.package = Some(value);
        self
    }

    pub fn diff_base(&mut self, value: Option<PackageInfo>) -> (r: &mut Self)
        ensures
            *r == (PackageBuilder { diff_base: Some(value), ..*old(self) }),
            *final(self) == *final(r),
    {
        self.diff_base = Some(value);
        self
    }

    pub fn review(&mut self, value: Review) -> (r: &mut Self)
        ensures
            *r == (PackageBuilder { review: Some(value), ..*old(self) }),
            *final(self) == *final(r),
    {
        self.review = Some(value);
        self
    }

    pub fn issues(&mut self, value: Vec<Issue>) -> (r: &mut Self)
        ensures
            *r == (PackageBuilder { issues: Some(value), ..*old(self) }),
            *final(self) == *final(r),
    {
        self.issues = Some(value);
        self
    }

    pub fn advisories(&mut self, value: Vec<Advisory>) -> (r: &mut Self)
        ensures
            *r == (PackageBuilder { advisories: Some(value), ..*old(self) }),
            *final(self) == *final(r),
    {
        self.advisories = Some(value);
        self
    }

    pub fn flags(&mut self, value: Flags) -> (r: &mut Self)
        ensures
            *r == (PackageBuilder { flags: Some(value), ..*old(self) }),
            *final(self) == *final(r),
    {
        self.flags = Some(value);
        self
    }

    pub fn alternatives(&mut self, value: Vec<PackageId>) -> (r: &mut Self)
        ensures
            *r == (PackageBuilder { alternatives: Some(value), ..*old(self) }),
            *final(self) == *final(r),
    {
        self.alternatives = Some(value);
        self
    }

    pub fn comment(&mut self, value: String) -> (r: &mut Self)
        ensures
            *r == (PackageBuilder { comment: Some(value), ..*old(self) }),
            *final(self) == *final(r),
    {
        self.comment = Some(value);
        self
    }

    pub fn override_(&mut self, value: Vec<OverrideItem>) -> (r: &mut Self)
        ensures
            *r == (PackageBuilder { override_: Some(value), ..*old(self) }),
            *final(self) == *final(r),
    {
        self.override_ = Some(value);
        self
    }

    /// The proof, from copies of the fields set; an error names the first of
    /// `common` and `package` that is not set.
    pub fn build(&self) -> (r: Result<Package, Error>)
        ensures
            r is Ok <==> self.common is Some && self.package is Some,
            r matches Err(e) ==> e matches Error::BuildingProof(m) && m@ == (if self.common is None {
                "`common` must be initialized"@
            } else {
                "`package` must be initialized"@
            }),
            r matches Ok(p) ==> p@ == (PackageView {
                common: self.common.unwrap()@,
                package: self.package.unwrap()@,
                diff_base: match self.diff_base {
                    Some(Some(d)) => Some(d@),
                    _ => None,
                },
                review: match self.review {
                    Some(v) => v,
                    None => review_none(),
                },
                issues: match self.issues {
                    Some(v) => issues_view(v@),
                    None => Seq::empty(),
                },
                advisories: match self.advisories {
                    Some(v) => advisories_view(v@),
                    None => Seq::empty(),
                },
                flags: match self.flags {
                    Some(f) => f,
                    None => Flags { unmaintained: false },
                },
                alternatives: match self.alternatives {
                    Some(v) => each_once(package_ids_view(v@)),
                    None => Seq::empty(),
                },
                comment: match self.comment {
                    Some(c) => c@,
                    None => Seq::empty(),
                },
                override_: match self.override_ {
                    Some(o) => overrides_view(o@),
                    None => Seq::empty(),
                },
            }),
    {
        let common = match &self.common {
            Some(c) => c.clone(),
            None => {
                return Err(Error::BuildingProof(String::from_str("`common` must be initialized")));
            },
        };
        let package = match &self.package {
            Some(p) => p.clone(),
            None => {
                return Err(Error::BuildingProof(String::from_str("`package` must be initialized")));
            },
        };
        let diff_base = match &self.diff_base {
            Some(Some(d)) => Some(d.clone()),
            _ => None,
        };
        let review = match self.review {
            Some(v) => v,
            None => Review::default(),
        };
        let issues = match &self.issues {
            Some(v) => clone_issues(v),
            None => Vec::new(),
        };
        let advisories = match &self.advisories {
            Some(v) => clone_advisories(v),
            None => Vec::new(),
        };
        let flags = match self.flags {
            Some(f) => f,
            None => Flags::default(),
        };
        let alternatives = match &self.alternatives {
            Some(v) => PackageIdSet::from_vec(clone_package_ids(v)),
            None => PackageIdSet::new(),
        };
        let comment = match &self.comment {
            Some(c) => c.clone(),
            None => String::new(),
        };
        let override_ = match &self.override_ {
            Some(o) => {
                let d = overrides_to_drafts(o);
                drafts_to_overrides(&d)
            },
            None => Vec::new(),
        };
        let p = Package {
            common,
            package,
            diff_base,
            review,
            issues,
            advisories,
            flags,
            alternatives,
            comment,
            override_,
        };
        assert(issues_view(p.issues@) =~= match self.issues {
            Some(v) => issues_view(v@),
            None => Seq::empty(),
        });
        assert(advisories_view(p.advisories@) =~= match self.advisories {
            Some(v) => advisories_view(v@),
            None => Seq::empty(),
        });
        assert(overrides_view(p.override_@) =~= match self.override_ {
            Some(o) => overrides_view(o@),
            None => Seq::empty(),
        });
        Ok(p)
    }
}

impl PublicId {
    /// A package review proof by this id, dated now, of `package`.
    pub fn create_package_review_proof(
        &self,
        package: PackageInfo,
        review: Review,
        advisories: Vec<Advisory>,
        comment: String,
    ) -> (r: Result<Package, Error>)
        ensures
            r is Ok,
            r matches Ok(p) ==> fresh_common(
                p@.common,
                package_kind(),
                CURRENT_PACKAGE_REVIEW_PROOF_SERIALIZATION_VERSION,
                self@,
            ),
            r matches Ok(p) ==> p@.package == package@ && p@.review == review,
            r matches Ok(p) ==> p@.advisories == advisories_view(advisories@),
            r matches Ok(p) ==> p@.comment == comment@ && p@.diff_base is None,
            r matches Ok(p) ==> p@.issues == Seq::<IssueView>::empty(),
            r matches Ok(p) ==> p@.flags == (Flags { unmaintained: false }),
            r matches Ok(p) ==> p@.alternatives == Seq::<(Seq<char>, Seq<char>)>::empty(),
            r matches Ok(p) ==> p@.override_ == Seq::<OverrideView>::empty(),
    {
        let mut b = PackageBuilder::default();
        b.from(self.clone()).package(package).review(review).advisories(advisories).comment(
            comment,
        );
        b.build()
    }
}

/// The advisory a review gives: the versions it affects and its severity.
#[derive(Debug, Clone, Copy, PartialEq, Eq, Structural)]
pub struct AdviseCommon {
    pub affected: VersionRange,
    pub severity: Level,
}

impl Default for AdviseCommon {
    fn default() -> (a: Self)
        ensures
            a == (AdviseCommon { affected: VersionRange::All, severity: Level::Medium }),
    {
        AdviseCommon { affected: VersionRange::default(), severity: Level::default() }
    }
}

/// What a review says of a crate as a whole: trust it, withdraw trust, or
/// distrust it.
#[derive(Debug, Clone, Copy, PartialEq, Eq, Structural)]
pub enum TrustProofType {
    Trust,
    Untrust,
    Distrust,
}

/// The review that goes with each kind of trust.
pub open spec fn review_of_trust(t: TrustProofType) -> Review {
    match t {
        TrustProofType::Trust => Review {
            thoroughness: Level::Low,
            understanding: Level::Medium,
            rating: crate::review::Rating::Positive,
        },
        TrustProofType::Untrust => review_none(),
        TrustProofType::Distrust => Review {
            thoroughness: Level::Low,
            understanding: Level::Medium,
            rating: crate::review::Rating::Negative,
        },
    }
}

impl TrustProofType {
    /// The review for this kind of trust (see [`review_of_trust`]).
    pub fn to_review(self) -> (r: Review)
        ensures
            r == review_of_trust(self),
    {
        match self {
            TrustProofType::Trust => Review::new_positive(),
            TrustProofType::Untrust => Review::new_none(),
            TrustProofType::Distrust => Review::new_negative(),
        }
    }
}

/// The review a new package review starts with: empty when the review gives
/// an advisory or reports an issue, else the one of its kind of trust.
pub open spec fn default_review_content(
    trust: TrustProofType,
    advises: bool,
    reports: bool,
) -> Review {
    if advises || reports {
        review_none()
    } else {
        review_of_trust(trust)
    }
}

/// The package review to edit for a crate version. It continues the
/// author's previous review of that version where there is one (with the
/// review emptied on `Untrust`), else starts from `fresh` with the default
/// review, taking the comment and review of the author's review of the base
/// version of a differential review where there is one. An advisory and an
/// issue (which makes the rating negative) are added as asked; the flags and
/// alternatives are the author's current ones.
pub open spec fn prepared_review(
    previous: Option<PackageView>,
    fresh: PackageView,
    base: Option<PackageView>,
    trust: TrustProofType,
    advise: Option<AdviseCommon>,
    report: Option<Level>,
    flags: Option<Flags>,
    alternatives: Seq<(Seq<char>, Seq<char>)>,
) -> PackageView {
    let d = default_review_content(trust, advise is Some, report is Some);
    let p0 = match previous {
        Some(p) => if trust == TrustProofType::Untrust {
            PackageView { review: d, ..p }
        } else {
            p
        },
        None => match base {
            Some(b) => PackageView { review: b.review, comment: b.comment, ..fresh },
            None => PackageView { review: d, ..fresh },
        },
    };
    let p1 = match advise {
        Some(a) => PackageView {
            advisories: p0.advisories.push(
                (Seq::<Seq<char>>::empty(), a.severity, a.affected, Seq::<char>::empty()),
            ),
            ..p0
        },
        None => p0,
    };
    let p2 = match report {
        Some(sev) => PackageView {
            issues: p1.issues.push((Seq::<char>::empty(), sev, VersionRange::All, Seq::<char>::empty())),
            review: Review { rating: crate::review::Rating::Negative, ..p1.review },
            ..p1
        },
        None => p1,
    };
    PackageView {
        flags: match flags {
            Some(f) => f,
            None => Flags { unmaintained: false },
        },
        alternatives,
        ..p2
    }
}

/// Re-reviewing a crate version the author has reviewed continues that
/// review: its author, date, package, base, comment, advisories, issues and
/// overrides stay; its rating, thoroughness and understanding stay too,
/// unless the trust asked is `Untrust`, which empties them; only the flags
/// and alternatives are the author's current ones. What a fresh review or a
/// base review would hold plays no part.
pub proof fn lemma_prepared_review_continues_previous(
    previous: PackageView,
    fresh: PackageView,
    base: Option<PackageView>,
    trust: TrustProofType,
    flags: Option<Flags>,
    alternatives: Seq<(Seq<char>, Seq<char>)>,
    other_fresh: PackageView,
    other_base: Option<PackageView>,
)
    ensures
        prepared_review(Some(previous), fresh, base, trust, None, None, flags, alternatives).common
            == previous.common,
        prepared_review(Some(previous), fresh, base, trust, None, None, flags, alternatives).package
            == previous.package,
        prepared_review(Some(previous), fresh, base, trust, None, None, flags, alternatives).diff_base
            == previous.diff_base,
        prepared_review(Some(previous), fresh, base, trust, None, None, flags, alternatives).comment
            == previous.comment,
        prepared_review(Some(previous), fresh, base, trust, None, None, flags, alternatives).advisories
            == previous.advisories,
        prepared_review(Some(previous), fresh, base, trust, None, None, flags, alternatives).issues
            == previous.issues,
        prepared_review(Some(previous), fresh, base, trust, None, None, flags, alternatives).override_
            == previous.override_,
        trust != TrustProofType::Untrust ==> prepared_review(
            Some(previous),
            fresh,
            base,
            trust,
            None,
            None,
            flags,
            alternatives,
        ).review == previous.review,
        trust == TrustProofType::Untrust ==> prepared_review(
            Some(previous),
            fresh,
            base,
            trust,
            None,
            None,
            flags,
            alternatives,
        ).review == review_none(),
        prepared_review(Some(previous), fresh, base, trust, None, None, flags, alternatives)
            == prepared_review(
            Some(previous),
            other_fresh,
            other_base,
            trust,
            None,
            None,
            flags,
            alternatives,
        ),
{
}

/// The package review to edit (see [`prepared_review`]), and the date of the
/// previous review it continues, if any.
pub fn prepare_package_review(
    previous_review: Option<Package>,
    fresh_review: Package,
    base_review: Option<&Package>,
    trust: TrustProofType,
    advise_common: Option<AdviseCommon>,
    report_severity: Option<Level>,
    flags: Option<Flags>,
    alternatives: Vec<PackageId>,
) -> (r: (Option<crate::proofs::Date>, Package))
    ensures
        r.0 == match previous_review {
            Some(p) => Some(p@.common.date),
            None => None,
        },
        r.1@ == prepared_review(
            match previous_review {
                Some(p) => Some(p@),
                None => None,
            },
            fresh_review@,
            match base_review {
                Some(b) => Some(b@),
                None => None,
            },
            trust,
            advise_common,
            report_severity,
            flags,
            each_once(package_ids_view(alternatives@)),
        ),
{
    let default_content = if advise_common.is_some() || report_severity.is_some() {
        Review::new_none()
    } else {
        trust.to_review()
    };
    let (previous_date, mut review) = match previous_review {
        Some(previous) => {
            let mut previous = previous;
            if trust == TrustProofType::Untrust {
                previous.review = default_content;
            }
            (Some(previous.common.date), previous)
        },
        None => {
            let mut fresh = fresh_review;
            fresh.review = default_content;
            match base_review {
                Some(base) => {
                    fresh.comment = base.comment.clone();
                    fresh.review = base.review;
                },
                None => {},
            }
            (None, fresh)
        },
    };
    if let Some(advise) = advise_common {
        let mut advisory = Advisory::from(advise.affected);
        advisory.severity = advise.severity;
        let ghost before = review@;
        review.advisories.push(advisory);
        assert(advisories_view(review.advisories@) =~= before.advisories.push(
            (Seq::<Seq<char>>::empty(), advise.severity, advise.affected, Seq::<char>::empty()),
        ));
    }
    if let Some(severity) = report_severity {
        let mut report = Issue::new_with_severity(String::new(), severity);
        report.severity = severity;
        let ghost before = review@;
        review.issues.push(report);
        review.review.rating = crate::review::Rating::Negative;
        assert(issues_view(review.issues@) =~= before.issues.push(
            (Seq::<char>::empty(), severity, VersionRange::All, Seq::<char>::empty()),
        ));
    }
    review.flags = match flags {
        Some(f) => f,
        None => Flags::default(),
    };
    review.alternatives = PackageIdSet::from_vec(alternatives);
    (previous_date, review)
}

/// Is a review among those a reissue selects: by `author`, and, where
/// given, of the crate `crate_name` and (with a crate) of `version`?
pub open spec fn reissue_selects(
    r: PackageView,
    author: Seq<u8>,
    crate_name: Option<Seq<char>>,
    version: Option<VersionView>,
) -> bool {
    &&& r.common.from.0 == author
    &&& match crate_name {
        Some(n) => r.package.0.0.1 == n && match version {
            Some(v) => r.package.0.1 == v,
            None => true,
        },
        None => true,
    }
}

impl Package {
    /// Does a reissue select this review (see [`reissue_selects`])?
    pub fn is_selected_for_reissue(
        &self,
        author: &crate::id::Id,
        crate_name: Option<&String>,
        version: Option<&Version>,
    ) -> (b: bool)
        ensures
            b == reissue_selects(
                self@,
                author@,
                match crate_name {
                    Some(n) => Some(n@),
                    None => None,
                },
                match version {
                    Some(v) => Some(v@),
                    None => None,
                },
            ),
    {
        let by_author = crate::id::ids_equal(&self.common.from.id, author);
        match crate_name {
            Some(n) => {
                by_author && str_eq(self.package.id.id.name.as_str(), n.as_str()) && match version {
                    Some(v) => self.package.id.version.same_as(v),
                    None => true,
                }
            },
            None => by_author,
        }
    }

    /// The review reissued by `sign_id`: dated now, with `sign_id` as its
    /// author and its kind written out, referring to the original proof by
    /// its digest, with `comment`.
    pub fn reissued(&self, sign_id: PublicId, orig_proof_digest: Vec<u8>, comment: String) -> (r:
        Package)
        ensures
            r@ == (PackageView {
                common: CommonView {
                    date: r@.common.date,
                    from: sign_id@,
                    kind: Some(kind_or(self@.common.kind, package_kind())),
                    original: Some((orig_proof_digest@, comment@)),
                    ..self@.common
                },
                ..self@
            }),
            r@.common.date.wf(),
    {
        let mut reissue = self.clone();
        reissue.touch_date();
        reissue.change_from(sign_id);
        reissue.ensure_kind_is_backfilled();
        reissue.set_original_reference(OriginalReference { proof: orig_proof_digest, comment });
        reissue
    }
}

/// Has `sign_id` already signed a review of the same package (the same
/// package information) as `orig`?
pub fn already_reissued(reviews: &Vec<Package>, sign_id: &crate::id::Id, orig: &Package) -> (b:
    bool)
    ensures
        b == exists|i: int|
            0 <= i < reviews@.len() && (#[trigger] reviews@[i])@.common.from.0 == sign_id@
                && reviews@[i]@.package == orig@.package,
{
    let mut i: usize = 0;
    while i < reviews.len()
        invariant
            i <= reviews@.len(),
            forall|k: int|
                0 <= k < i ==> !((#[trigger] reviews@[k])@.common.from.0 == sign_id@
                    && reviews@[k]@.package == orig@.package),
        decreases reviews@.len() - i,
    {
        let r = &reviews[i];
        if crate::id::ids_equal(&r.common.from.id, sign_id) && r.package.same_as(&orig.package) {
            assert(reviews@[i as int]@.common.from.0 == r.common.from.id@);
            return true;
        }
        i = i + 1;
    }
    false
}

} // verus!
