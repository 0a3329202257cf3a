//! Statistics `cargo crev verify` shows of a crate and its dependencies:
//! counts with totals, download counts, and the owners of each package.
use vstd::prelude::*;
use crate::package::{PackageVersionId, PackageVersionIdView};

verus! {

/// One package and the names of its owners.
pub type OwnerGroupView = (PackageVersionIdView, Seq<Seq<char>>);

/// The views of a sequence of strings.
pub open spec fn names_view(v: Seq<String>) -> Seq<Seq<char>> {
    v.map_values(|s: String| s@)
}

/// The owner names of packages: one group of names per package.
#[derive(Debug)]
pub struct OwnerSetSet {
    groups: Vec<(PackageVersionId, Vec<String>)>,
}

impl View for OwnerSetSet {
    type V = Seq<OwnerGroupView>;

    closed spec fn view(&self) -> Seq<OwnerGroupView> {
        self.groups@.map_values(|g: (PackageVersionId, Vec<String>)| (g.0@, names_view(g.1@)))
    }
}

/// No package has two groups.
pub open spec fn packages_distinct(gs: Seq<OwnerGroupView>) -> bool {
    forall|i: int, j: int| 0 <= i < j < gs.len() ==> (#[trigger] gs[i]).0 != (#[trigger] gs[j]).0
}

/// The owners of each package, as a map.
pub open spec fn owner_map(gs: Seq<OwnerGroupView>) -> Map<PackageVersionIdView, Set<Seq<char>>>
    decreases gs.len(),
{
    if gs.len() == 0 {
        Map::empty()
    } else {
        owner_map(gs.drop_last()).insert(gs.last().0, gs.last().1.to_set())
    }
}

/// The names of all owners, package after package.
pub open spec fn all_names(gs: Seq<OwnerGroupView>) -> Seq<Seq<char>>
    decreases gs.len(),
{
    if gs.len() == 0 {
        Seq::empty()
    } else {
        all_names(gs.drop_last()) + gs.last().1
    }
}

/// A group no other group holds all the members of.
pub open spec fn is_maximal_group(gs: Seq<OwnerGroupView>, i: int) -> bool {
    !exists|j: int|
        0 <= j < gs.len() && j != i && (#[trigger] gs[i].1.to_set()).subset_of(
            #[trigger] gs[j].1.to_set(),
        )
}

/// How many of the first `k` groups are maximal.
pub open spec fn maximal_groups_upto(gs: Seq<OwnerGroupView>, k: int) -> nat
    decreases k,
{
    if k <= 0 {
        0
    } else {
        maximal_groups_upto(gs, k - 1) + if is_maximal_group(gs, k - 1) {
            1nat
        } else {
            0nat
        }
    }
}

fn clone_names(v: &Vec<String>) -> (r: Vec<String>)
    ensures
        names_view(r@) == names_view(v@),
{
    let mut r: Vec<String> = Vec::new();
    let mut i: usize = 0;
    while i < v.len()
        invariant
            i <= v.len(),
            names_view(r@) == names_view(v@.take(i as int)),
        decreases v.len() - i,
    {
        r.push(v[i].clone());
        i = i + 1;
        assert(names_view(v@.take(i as int)) =~= names_view(v@.take(i - 1)).push(v@[i - 1]@));
        assert(names_view(r@) =~= names_view(v@.take(i as int)));
    }
    assert(v@.take(v.len() as int) == v@);
    r
}

pub(crate) fn contains_name(v: &Vec<String>, s: &String) -> (b: bool)
    ensures
        b == names_view(v@).contains(s@),
{
    let mut i: usize = 0;
    while i < v.len()
        invariant
            i <= v.len(),
            forall|k: int| 0 <= k < i ==> (#[trigger] names_view(v@)[k]) != s@,
        decreases v.len() - i,
    {
        if crate::text::str_eq(v[i].as_str(), s.as_str()) {
            assert(names_view(v@)[i as int] == s@);
            return true;
        }
        i = i + 1;
    }
    false
}

/// The names, each once, in the order of their first appearance.
pub(crate) fn distinct_names(v: &Vec<String>) -> (r: Vec<String>)
    ensures
        names_view(r@).no_duplicates(),
        names_view(r@).to_set() == names_view(v@).to_set(),
{
    let mut r: Vec<String> = Vec::new();
    let mut i: usize = 0;
    while i < v.len()
        invariant
            i <= v.len(),
            names_view(r@).no_duplicates(),
            names_view(r@).to_set() == names_view(v@.take(i as int)).to_set(),
        decreases v.len() - i,
    {
        let ghost before = names_view(r@);
        let ghost pre = names_view(v@.take(i as int));
        assert(names_view(v@.take(i + 1)) =~= pre.push(v@[i as int]@));
        proof {
            broadcast use vstd::seq_lib::group_seq_properties;

        }
        if !contains_name(&r, &v[i]) {
            r.push(v[i].clone());
            assert(names_view(r@) =~= before.push(v@[i as int]@));
            assert(names_view(r@).to_set() =~= names_view(v@.take(i + 1)).to_set()) by {
                broadcast use vstd::seq_lib::group_seq_properties;

                assert forall|y: Seq<char>| #[trigger]
                    names_view(r@).contains(y) <==> names_view(v@.take(i + 1)).contains(y) by {
                    assert(before.to_set().contains(y) == before.contains(y));
                    assert(pre.to_set().contains(y) == pre.contains(y));
                }
            }
            assert(names_view(r@).no_duplicates()) by {
                assert forall|a: int, b: int|
                    0 <= a < b < names_view(r@).len() implies names_view(r@)[a] != names_view(
                        r@,
                    )[b] by {
                    if b == names_view(r@).len() - 1 {
                        assert(names_view(r@)[b] == v@[i as int]@);
                        assert(before.contains(names_view(r@)[a])) by {
                            assert(before[a] == names_view(r@)[a]);
                        }
                    } else {
                        assert(names_view(r@)[a] == before[a]);
                        assert(names_view(r@)[b] == before[b]);
                    }
                }
            }
        } else {
            assert(names_view(r@).to_set() =~= names_view(v@.take(i + 1)).to_set()) by {
                broadcast use vstd::seq_lib::group_seq_properties;

            }
        }
        i = i + 1;
    }
    assert(v@.take(v.len() as int) == v@);
    r
}

proof fn lemma_owner_map_update(gs: Seq<OwnerGroupView>, j: int, v: Seq<Seq<char>>)
    requires
        packages_distinct(gs),
        0 <= j < gs.len(),
    ensures
        owner_map(gs.update(j, (gs[j].0, v))) == owner_map(gs).insert(gs[j].0, v.to_set()),
    decreases gs.len(),
{
    let k = gs[j].0;
    let u = gs.update(j, (k, v));
    if j == gs.len() - 1 {
        assert(u.drop_last() == gs.drop_last());
        assert(owner_map(u) =~= owner_map(gs).insert(k, v.to_set()));
    } else {
        let p = gs.drop_last();
        assert(packages_distinct(p)) by {
            assert forall|a: int, b: int| 0 <= a < b < p.len() implies (#[trigger] p[a]).0 != (
            #[trigger] p[b]).0 by {
                assert(p[a] == gs[a] && p[b] == gs[b]);
            }
        }
        lemma_owner_map_update(p, j, v);
        assert(u.drop_last() == p.update(j, (k, v)));
        assert(u.last() == gs.last());
        assert(gs.last().0 != k) by {
            assert(gs[j].0 != gs[gs.len() - 1].0);
        }
        assert(owner_map(u) =~= owner_map(gs).insert(k, v.to_set()));
    }
}

fn names_subset(a: &Vec<String>, b: &Vec<String>) -> (r: bool)
    ensures
        r == names_view(a@).to_set().subset_of(names_view(b@).to_set()),
{
    let mut i: usize = 0;
    while i < a.len()
        invariant
            i <= a.len(),
            forall|k: int| 0 <= k < i ==> names_view(b@).contains(#[trigger] names_view(a@)[k]),
        decreases a.len() - i,
    {
        if !contains_name(b, &a[i]) {
            assert(names_view(a@).to_set().contains(names_view(a@)[i as int]));
            return false;
        }
        i = i + 1;
    }
    assert forall|x: Seq<char>| names_view(a@).to_set().contains(x) implies names_view(
        b@,
    ).to_set().contains(x) by {
        let k = choose|k: int| 0 <= k < names_view(a@).len() && names_view(a@)[k] == x;
        assert(names_view(b@).contains(names_view(a@)[k]));
    }
    true
}

fn find_package(gs: &Vec<(PackageVersionId, Vec<String>)>, k: &PackageVersionId) -> (r: Option<
    usize,
>)
    ensures
        r matches Some(j) ==> j < gs@.len() && gs@[j as int].0@ == k@,
        r is None ==> forall|j: int| 0 <= j < gs@.len() ==> (#[trigger] gs@[j]).0@ != k@,
{
    let mut i: usize = 0;
    while i < gs.len()
        invariant
            i <= gs.len(),
            forall|j: int| 0 <= j < i ==> (#[trigger] gs@[j]).0@ != k@,
        decreases gs.len() - i,
    {
        if gs[i].0.same_as(k) {
            return Some(i);
        }
        i = i + 1;
    }
    None
}

/// The views of owner groups.
pub open spec fn groups_view(v: Seq<(PackageVersionId, Vec<String>)>) -> Seq<OwnerGroupView> {
    v.map_values(|g: (PackageVersionId, Vec<String>)| (g.0@, names_view(g.1@)))
}

impl OwnerSetSet {
    #[verifier::type_invariant]
    closed spec fn inv(&self) -> bool {
        packages_distinct(self@)
    }

    /// The owners of one package (each name once).
    pub fn new(pkg_id: PackageVersionId, set: Vec<String>) -> (r: Self)
        ensures
            r@.len() == 1,
            r@[0].0 == pkg_id@,
            r@[0].1.no_duplicates(),
            r@[0].1.to_set() == names_view(set@).to_set(),
            owner_map(r@) == Map::<PackageVersionIdView, Set<Seq<char>>>::empty().insert(
                pkg_id@,
                names_view(set@).to_set(),
            ),
    {
        let names = distinct_names(&set);
        let mut groups: Vec<(PackageVersionId, Vec<String>)> = Vec::new();
        groups.push((pkg_id, names));
        let r = OwnerSetSet { groups };
        assert(r@.drop_last() =~= Seq::<OwnerGroupView>::empty());
        assert(owner_map(Seq::<OwnerGroupView>::empty()) == Map::<
            PackageVersionIdView,
            Set<Seq<char>>,
        >::empty());
        assert(r@.last() == (pkg_id@, names_view(names@)));
        assert(owner_map(r@) =~= Map::<PackageVersionIdView, Set<Seq<char>>>::empty().insert(
            pkg_id@,
            names_view(set@).to_set(),
        ));
        r
    }

    /// The number of different owner names over all packages.
    pub fn to_total_owners(&self) -> (r: usize)
        ensures
            r == all_names(self@).to_set().len(),
    {
        let ghost gs = self@;
        let mut flat: Vec<String> = Vec::new();
        let mut i: usize = 0;
        assert(gs.take(0) =~= Seq::<OwnerGroupView>::empty());
        while i < self.groups.len()
            invariant
                i <= self.groups.len(),
                gs == self@,
                gs == groups_view(self.groups@),
                names_view(flat@) == all_names(gs.take(i as int)),
            decreases self.groups.len() - i,
        {
            let names = &self.groups[i].1;
            let ghost start = names_view(flat@);
            let mut j: usize = 0;
            while j < names.len()
                invariant
                    j <= names.len(),
                    names_view(flat@) == start + names_view(names@.take(j as int)),
                decreases names.len() - j,
            {
                let ghost old_flat = names_view(flat@);
                flat.push(names[j].clone());
                assert(names_view(flat@) =~= old_flat.push(names@[j as int]@));
                j = j + 1;
                assert(names_view(names@.take(j as int)) =~= names_view(names@.take(j - 1)).push(
                    names@[j - 1]@,
                ));
                assert(names_view(flat@) =~= start + names_view(names@.take(j as int)));
            }
            assert(names@.take(names.len() as int) == names@);
            assert(gs.take(i + 1).drop_last() == gs.take(i as int));
            assert(gs.take(i + 1).last().1 == names_view(names@));
            i = i + 1;
        }
        assert(gs.take(self.groups.len() as int) == gs);
        let d = distinct_names(&flat);
        proof {
            names_view(d@).unique_seq_to_set();
        }
        d.len()
    }

    /// The number of packages whose owners are not all among the owners of
    /// another package.
    pub fn to_total_distinct_groups(&self) -> (r: usize)
        ensures
            r == maximal_groups_upto(self@, self@.len() as int),
    {
        let ghost gs = self@;
        let n = self.groups.len();
        let mut count: usize = 0;
        let mut i: usize = 0;
        while i < n
            invariant
                i <= n,
                n == self.groups.len(),
                gs == self@,
                gs == groups_view(self.groups@),
                count == maximal_groups_upto(gs, i as int),
                count <= i,
            decreases n - i,
        {
            let mut maximal = true;
            let mut j: usize = 0;
            while j < n
                invariant
                    j <= n,
                    i < n,
                    n == self.groups.len(),
                    gs == groups_view(self.groups@),
                    maximal == !exists|k: int|
                        0 <= k < j && k != i && (#[trigger] gs[i as int].1.to_set()).subset_of(
                            #[trigger] gs[k].1.to_set(),
                        ),
                decreases n - j,
            {
                assert(gs[i as int].1 == names_view(self.groups@[i as int].1@));
                assert(gs[j as int].1 == names_view(self.groups@[j as int].1@));
                if j != i && names_subset(&self.groups[i].1, &self.groups[j].1) {
                    maximal = false;
                }
                j = j + 1;
            }
            if maximal {
                count = count + 1;
            }
            i = i + 1;
        }
        count
    }
}

impl vstd::std_specs::ops::AddSpecImpl<OwnerSetSet> for OwnerSetSet {
    /// What `+` gives is stated by the `ensures` of `add` alone.
    open spec fn obeys_add_spec() -> bool {
        false
    }

    open spec fn add_req(self, rhs: OwnerSetSet) -> bool {
        true
    }

    open spec fn add_spec(self, rhs: OwnerSetSet) -> OwnerSetSet {
        rhs
    }
}

impl std::ops::Add<OwnerSetSet> for OwnerSetSet {
    type Output = OwnerSetSet;

    /// The owners of the packages of both; where both have a package, the
    /// owners from `other`.
    fn add(self, other: OwnerSetSet) -> (r: OwnerSetSet)
        ensures
            owner_map(r@) == owner_map(self@).union_prefer_right(owner_map(other@)),
    {
        proof {
            use_type_invariant(&self);
        }
        let mut groups = self.groups;
        let ghost base = owner_map(groups_view(groups@));
        let mut i: usize = 0;
        assert(other@.take(0) =~= Seq::<OwnerGroupView>::empty());
        assert(base.union_prefer_right(owner_map(other@.take(0))) =~= base);
        while i < other.groups.len()
            invariant
                i <= other.groups.len(),
                packages_distinct(groups_view(groups@)),
                owner_map(groups_view(groups@)) == base.union_prefer_right(
                    owner_map(other@.take(i as int)),
                ),
            decreases other.groups.len() - i,
        {
            let k = other.groups[i].0.clone();
            let v = clone_names(&other.groups[i].1);
            let ghost before = groups_view(groups@);
            let ghost kv = k@;
            let ghost vv = names_view(v@);
            assert(other@.take(i + 1).drop_last() == other@.take(i as int));
            assert(other@.take(i + 1).last() == (kv, vv));
            match find_package(&groups, &k) {
                Some(j) => {
                    groups.set(j, (k, v));
                    proof {
                        assert(before[j as int].0 == kv);
                        assert(groups_view(groups@) =~= before.update(j as int, (kv, vv)));
                        lemma_owner_map_update(before, j as int, vv);
                        assert forall|a: int, b: int|
                            0 <= a < b < groups_view(groups@).len() implies (#[trigger] groups_view(
                            groups@,
                        )[a]).0 != (#[trigger] groups_view(groups@)[b]).0 by {
                            assert(groups_view(groups@)[a].0 == before[a].0);
                            assert(groups_view(groups@)[b].0 == before[b].0);
                        }
                    }
                },
                None => {
                    groups.push((k, v));
                    proof {
                        assert(groups_view(groups@) =~= before.push((kv, vv)));
                        assert(groups_view(groups@).drop_last() == before);
                        assert forall|a: int, b: int|
                            0 <= a < b < groups_view(groups@).len() implies (#[trigger] groups_view(
                            groups@,
                        )[a]).0 != (#[trigger] groups_view(groups@)[b]).0 by {
                            assert(groups_view(groups@)[a] == before[a]);
                            if b < before.len() {
                                assert(groups_view(groups@)[b] == before[b]);
                            }
                        }
                    }
                },
            }
            assert(owner_map(groups_view(groups@)) =~= base.union_prefer_right(
                owner_map(other@.take(i + 1)),
            ));
            i = i + 1;
        }
        assert(other@.take(other.groups.len() as int) == other@);
        OwnerSetSet { groups }
    }
}

/// A count of something, and the total number of that thing.
#[derive(Debug, Clone, Copy, PartialEq, Eq, Structural)]
pub struct CountWithTotal {
    pub count: u64,
    pub total: u64,
}

impl std::ops::Add<CountWithTotal> for CountWithTotal {
    type Output = CountWithTotal;

    /// Both counts summed.
    fn add(self, other: CountWithTotal) -> (r: CountWithTotal)
        ensures
            r.count == self.count + other.count,
            r.total == self.total + other.total,
    {
        CountWithTotal { count: self.count + other.count, total: self.total + other.total }
    }
}

impl vstd::std_specs::ops::AddSpecImpl<CountWithTotal> for CountWithTotal {
    open spec fn obeys_add_spec() -> bool {
        true
    }

    /// The sums must fit in `u64`.
    open spec fn add_req(self, rhs: CountWithTotal) -> bool {
        self.count + rhs.count <= u64::MAX && self.total + rhs.total <= u64::MAX
    }

    open spec fn add_spec(self, rhs: CountWithTotal) -> CountWithTotal {
        CountWithTotal {
            count: (self.count + rhs.count) as u64,
            total: (self.total + rhs.total) as u64,
        }
    }
}

/// Downloads of a crate: of one version, of all versions, and recent ones.
#[derive(Debug, Clone, Copy, PartialEq, Eq, Structural)]
pub struct DownloadsStats {
    pub version: u64,
    pub total: u64,
    pub recent: u64,
}

impl std::ops::Add<DownloadsStats> for DownloadsStats {
    type Output = DownloadsStats;

    /// Each count summed.
    fn add(self, other: DownloadsStats) -> (r: DownloadsStats)
        ensures
            r.version == self.version + other.version,
            r.total == self.total + other.total,
            r.recent == self.recent + other.recent,
    {
        DownloadsStats {
            version: self.version + other.version,
            total: self.total + other.total,
            recent: self.recent + other.recent,
        }
    }
}

impl vstd::std_specs::ops::AddSpecImpl<DownloadsStats> for DownloadsStats {
    open spec fn obeys_add_spec() -> bool {
        true
    }

    /// The sums must fit in `u64`.
    open spec fn add_req(self, rhs: DownloadsStats) -> bool {
        self.version + rhs.version <= u64::MAX && self.total + rhs.total <= u64::MAX
            && self.recent + rhs.recent <= u64::MAX
    }

    open spec fn add_spec(self, rhs: DownloadsStats) -> DownloadsStats {
        DownloadsStats {
            version: (self.version + rhs.version) as u64,
            total: (self.total + rhs.total) as u64,
            recent: (self.recent + rhs.recent) as u64,
        }
    }
}

/// How well a crate's code is vouched for, from worst to best.
#[derive(Debug, Clone, Copy, PartialEq, Eq, Structural)]
pub enum VerificationStatus {
    Negative,
    Insufficient,
    Verified,
    Local,
}

/// The place of a status from worst (0) to best.
pub open spec fn status_rank(s: VerificationStatus) -> int {
    match s {
        VerificationStatus::Negative => 0,
        VerificationStatus::Insufficient => 1,
        VerificationStatus::Verified => 2,
        VerificationStatus::Local => 3,
    }
}

/// The worse of two statuses.
pub open spec fn worse_status(a: VerificationStatus, b: VerificationStatus) -> VerificationStatus {
    if status_rank(a) <= status_rank(b) {
        a
    } else {
        b
    }
}

impl VerificationStatus {
    /// Is this the status of reviewed and trusted code?
    pub fn is_verified(self) -> (b: bool)
        ensures
            b == (self == VerificationStatus::Verified),
    {
        match self {
            VerificationStatus::Verified => true,
            _ => false,
        }
    }

    fn rank(self) -> (r: u8)
        ensures
            r == status_rank(self),
    {
        match self {
            VerificationStatus::Negative => 0,
            VerificationStatus::Insufficient => 1,
            VerificationStatus::Verified => 2,
            VerificationStatus::Local => 3,
        }
    }

    /// The worse of the two.
    pub fn min(self, other: VerificationStatus) -> (r: VerificationStatus)
        ensures
            r == worse_status(self, other),
    {
        if self.rank() <= other.rank() {
            self
        } else {
            other
        }
    }
}

/// The sum of two optional counts; unknown where either is.
pub open spec fn option_sum(a: Option<u64>, b: Option<u64>) -> Option<u64> {
    match (a, b) {
        (Some(x), Some(y)) => Some((x + y) as u64),
        _ => None,
    }
}

/// What is known of a crate that adds up over its dependencies.
#[derive(Debug)]
pub struct AccumulativeCrateDetails {
    pub trust: VerificationStatus,
    pub has_trusted_ids: bool,
    pub trusted_issues: CountWithTotal,
    pub verified: bool,
    pub loc: Option<u64>,
    pub geiger_count: Option<u64>,
    pub has_custom_build: bool,
    pub is_unmaintained: bool,
    pub owner_set: OwnerSetSet,
    pub is_local_source_code: bool,
}

/// The details as values.
pub struct DetailsView {
    pub trust: VerificationStatus,
    pub has_trusted_ids: bool,
    pub issues_count: int,
    pub issues_total: int,
    pub verified: bool,
    pub loc: Option<int>,
    pub geiger_count: Option<int>,
    pub has_custom_build: bool,
    pub is_unmaintained: bool,
    pub owners: Map<PackageVersionIdView, Set<Seq<char>>>,
    pub is_local_source_code: bool,
}

/// An optional count as an optional integer.
pub open spec fn opt_int(a: Option<u64>) -> Option<int> {
    match a {
        Some(x) => Some(x as int),
        None => None,
    }
}

impl View for AccumulativeCrateDetails {
    type V = DetailsView;

    open spec fn view(&self) -> DetailsView {
        DetailsView {
            trust: self.trust,
            has_trusted_ids: self.has_trusted_ids,
            issues_count: self.trusted_issues.count as int,
            issues_total: self.trusted_issues.total as int,
            verified: self.verified,
            loc: opt_int(self.loc),
            geiger_count: opt_int(self.geiger_count),
            has_custom_build: self.has_custom_build,
            is_unmaintained: self.is_unmaintained,
            owners: owner_map(self.owner_set@),
            is_local_source_code: self.is_local_source_code,
        }
    }
}

/// The sum of two optional counts; unknown where either is.
pub open spec fn opt_sum(a: Option<int>, b: Option<int>) -> Option<int> {
    match (a, b) {
        (Some(x), Some(y)) => Some(x + y),
        _ => None,
    }
}

/// The details of a crate together with those of another: the worse status;
/// issues, lines of code and unsafe counts summed (unknown where either is);
/// the owners of both (those of `b` where both list a package); a flag set
/// where either has it; verified where both are.
pub open spec fn sum_details(a: DetailsView, b: DetailsView) -> DetailsView {
    DetailsView {
        trust: worse_status(a.trust, b.trust),
        has_trusted_ids: a.has_trusted_ids || b.has_trusted_ids,
        issues_count: a.issues_count + b.issues_count,
        issues_total: a.issues_total + b.issues_total,
        verified: a.verified && b.verified,
        loc: opt_sum(a.loc, b.loc),
        geiger_count: opt_sum(a.geiger_count, b.geiger_count),
        has_custom_build: a.has_custom_build || b.has_custom_build,
        is_unmaintained: a.is_unmaintained || b.is_unmaintained,
        owners: a.owners.union_prefer_right(b.owners),
        is_local_source_code: a.is_local_source_code || b.is_local_source_code,
    }
}

/// Every count of `v` fits in `u64`.
pub open spec fn counts_fit(v: DetailsView) -> bool {
    &&& v.issues_count <= u64::MAX
    &&& v.issues_total <= u64::MAX
    &&& (v.loc matches Some(x) ==> x <= u64::MAX)
    &&& (v.geiger_count matches Some(x) ==> x <= u64::MAX)
}

impl Clone for OwnerSetSet {
    fn clone(&self) -> (r: Self)
        ensures
            r@ == self@,
    {
        proof {
            use_type_invariant(self);
        }
        let mut groups: Vec<(PackageVersionId, Vec<String>)> = Vec::new();
        let mut i: usize = 0;
        while i < self.groups.len()
            invariant
                i <= self.groups.len(),
                groups_view(groups@) == groups_view(self.groups@.take(i as int)),
            decreases self.groups.len() - i,
        {
            let ghost before = groups@;
            let g = &self.groups[i];
            let c = (g.0.clone(), clone_names(&g.1));
            groups.push(c);
            assert(groups_view(groups@) =~= groups_view(before).push(
                groups_view(self.groups@)[i as int],
            ));
            assert(groups_view(self.groups@.take(i + 1)) =~= groups_view(
                self.groups@.take(i as int),
            ).push(groups_view(self.groups@)[i as int]));
            i = i + 1;
        }
        assert(self.groups@.take(self.groups.len() as int) == self.groups@);
        assert(groups_view(groups@) =~= self@);
        OwnerSetSet { groups }
    }
}

impl Clone for AccumulativeCrateDetails {
    fn clone(&self) -> (r: Self)
        ensures
            r@ == self@,
    {
        AccumulativeCrateDetails {
            trust: self.trust,
            has_trusted_ids: self.has_trusted_ids,
            trusted_issues: self.trusted_issues,
            verified: self.verified,
            loc: self.loc,
            geiger_count: self.geiger_count,
            has_custom_build: self.has_custom_build,
            is_unmaintained: self.is_unmaintained,
            owner_set: self.owner_set.clone(),
            is_local_source_code: self.is_local_source_code,
        }
    }
}

impl vstd::std_specs::ops::AddSpecImpl<AccumulativeCrateDetails> for AccumulativeCrateDetails {
    /// What `+` gives is stated by the `ensures` of `add` alone.
    open spec fn obeys_add_spec() -> bool {
        false
    }

    /// The sums must fit in `u64`.
    open spec fn add_req(self, rhs: AccumulativeCrateDetails) -> bool {
        counts_fit(sum_details(self@, rhs@))
    }

    open spec fn add_spec(self, rhs: AccumulativeCrateDetails) -> AccumulativeCrateDetails {
        rhs
    }
}

impl std::ops::Add<AccumulativeCrateDetails> for AccumulativeCrateDetails {
    type Output = AccumulativeCrateDetails;

    /// The details of a crate together with those of another (see
    /// [`sum_details`]).
    fn add(self, other: AccumulativeCrateDetails) -> (r: AccumulativeCrateDetails)
        ensures
            r@ == sum_details(self@, other@),
    {
        AccumulativeCrateDetails {
            trust: self.trust.min(other.trust),
            has_trusted_ids: self.has_trusted_ids || other.has_trusted_ids,
            trusted_issues: self.trusted_issues + other.trusted_issues,
            verified: self.verified && other.verified,
            loc: crate::cli::sum_options(self.loc, other.loc),
            geiger_count: crate::cli::sum_options(self.geiger_count, other.geiger_count),
            has_custom_build: self.has_custom_build || other.has_custom_build,
            is_unmaintained: self.is_unmaintained || other.is_unmaintained,
            owner_set: self.owner_set + other.owner_set,
            is_local_source_code: self.is_local_source_code || other.is_local_source_code,
        }
    }
}

/// The views of a sequence of details.
pub open spec fn details_views(ds: Seq<AccumulativeCrateDetails>) -> Seq<DetailsView> {
    ds.map_values(|d: AccumulativeCrateDetails| d@)
}

/// `own` with `deps` added one after the other.
pub open spec fn fold_details(own: DetailsView, deps: Seq<DetailsView>) -> DetailsView
    decreases deps.len(),
{
    if deps.len() == 0 {
        own
    } else {
        sum_details(fold_details(own, deps.drop_last()), deps.last())
    }
}

/// Every partial sum of `own` and `deps` fits in `u64`.
pub open spec fn fold_fits(own: DetailsView, deps: Seq<DetailsView>) -> bool {
    forall|k: int| 0 <= k <= deps.len() ==> counts_fit(#[trigger] fold_details(own, deps.take(k)))
}

/// The details of a crate with those of all its dependencies added, in the
/// order given.
pub fn accumulate_details(own: AccumulativeCrateDetails, deps: Vec<AccumulativeCrateDetails>) -> (r:
    AccumulativeCrateDetails)
    requires
        fold_fits(own@, details_views(deps@)),
    ensures
        r@ == fold_details(own@, details_views(deps@)),
{
    let ghost ds = details_views(deps@);
    let ghost own_v = own@;
    let mut acc = own;
    assert(ds.take(0) =~= Seq::<DetailsView>::empty());
    for d in it: deps.into_iter()
        invariant
            ds == details_views(it.seq()),
            acc@ == fold_details(own_v, ds.take(it.index() as int)),
            fold_fits(own_v, ds),
    {
        let ghost k = it.index() as int;
        assert(ds.take(k + 1).drop_last() == ds.take(k));
        assert(ds.take(k + 1).last() == d@);
        assert(counts_fit(fold_details(own_v, ds.take(k + 1))));
        acc = acc + d;
    }
    assert(ds.take(ds.len() as int) == ds);
    acc
}

/// Summing details is associative: adding `b` and then `c` to `a` gives what
/// adding the sum of `b` and `c` to `a` gives.
pub proof fn lemma_sum_details_associative(a: DetailsView, b: DetailsView, c: DetailsView)
    ensures
        sum_details(sum_details(a, b), c) == sum_details(a, sum_details(b, c)),
{
    let l = sum_details(sum_details(a, b), c);
    let r = sum_details(a, sum_details(b, c));
    assert(l.owners =~= r.owners);
    assert(l.trust == r.trust);
    assert(l.loc == r.loc);
    assert(l.geiger_count == r.geiger_count);
}

/// Adding dependencies never makes a crate look better: the status of the
/// sum is the worst of the crate's own and its dependencies' statuses, it is
/// verified only where the crate and every dependency are, and it is
/// unmaintained or has a custom build where any of them is or has.
pub proof fn lemma_accumulated_is_worst(own: DetailsView, deps: Seq<DetailsView>)
    ensures
        status_rank(fold_details(own, deps).trust) <= status_rank(own.trust),
        forall|i: int|
            0 <= i < deps.len() ==> status_rank(fold_details(own, deps).trust) <= status_rank(
                #[trigger] deps[i].trust,
            ),
        fold_details(own, deps).trust == own.trust || exists|i: int|
            0 <= i < deps.len() && fold_details(own, deps).trust == (#[trigger] deps[i]).trust,
        fold_details(own, deps).verified == (own.verified && forall|i: int|
            0 <= i < deps.len() ==> (#[trigger] deps[i]).verified),
        fold_details(own, deps).is_unmaintained == (own.is_unmaintained || exists|i: int|
            0 <= i < deps.len() && (#[trigger] deps[i]).is_unmaintained),
        fold_details(own, deps).has_custom_build == (own.has_custom_build || exists|i: int|
            0 <= i < deps.len() && (#[trigger] deps[i]).has_custom_build),
    decreases deps.len(),
{
    if deps.len() > 0 {
        let p = deps.drop_last();
        lemma_accumulated_is_worst(own, p);
        let last = deps.len() - 1;
        assert(deps[last] == deps.last());
        assert forall|i: int| 0 <= i < p.len() implies #[trigger] p[i] == deps[i] by {}
        let f = fold_details(own, deps);
        let fp = fold_details(own, p);
        assert(f == sum_details(fp, deps.last()));
        if fp.trust != own.trust && status_rank(deps.last().trust) >= status_rank(fp.trust) {
            let i = choose|i: int| 0 <= i < p.len() && fp.trust == (#[trigger] p[i]).trust;
            assert(f.trust == deps[i].trust);
        }
        assert forall|i: int| 0 <= i < deps.len() implies status_rank(f.trust) <= status_rank(
            #[trigger] deps[i].trust,
        ) by {
            if i < last {
                assert(deps[i] == p[i]);
            }
        }
        if forall|i: int| 0 <= i < deps.len() ==> (#[trigger] deps[i]).verified {
            assert forall|i: int| 0 <= i < p.len() implies (#[trigger] p[i]).verified by {
                assert(deps[i].verified);
            }
        } else {
            let i = choose|i: int| 0 <= i < deps.len() && !(#[trigger] deps[i]).verified;
            if i < last {
                assert(!p[i].verified);
            }
        }
        if exists|i: int| 0 <= i < deps.len() && (#[trigger] deps[i]).is_unmaintained {
            let i = choose|i: int| 0 <= i < deps.len() && (#[trigger] deps[i]).is_unmaintained;
            if i < last {
                assert(p[i].is_unmaintained);
            }
        } else {
            assert forall|i: int| 0 <= i < p.len() implies !(#[trigger] p[i]).is_unmaintained by {
                assert(!deps[i].is_unmaintained);
            }
            assert(!deps[last].is_unmaintained);
        }
        if exists|i: int| 0 <= i < deps.len() && (#[trigger] deps[i]).has_custom_build {
            let i = choose|i: int| 0 <= i < deps.len() && (#[trigger] deps[i]).has_custom_build;
            if i < last {
                assert(p[i].has_custom_build);
            }
        } else {
            assert forall|i: int| 0 <= i < p.len() implies !(#[trigger] p[i]).has_custom_build by {
                assert(!deps[i].has_custom_build);
            }
            assert(!deps[last].has_custom_build);
        }
    }
}

/// A crate with its dependencies counts as local source code where the crate
/// itself or any dependency is local source code, and has trusted ids where
/// it or any dependency has them.
pub proof fn lemma_accumulated_local_and_trusted(own: DetailsView, deps: Seq<DetailsView>)
    ensures
        fold_details(own, deps).is_local_source_code == (own.is_local_source_code || exists|i: int|
            0 <= i < deps.len() && (#[trigger] deps[i]).is_local_source_code),
        fold_details(own, deps).has_trusted_ids == (own.has_trusted_ids || exists|i: int|
            0 <= i < deps.len() && (#[trigger] deps[i]).has_trusted_ids),
    decreases deps.len(),
{
    if deps.len() > 0 {
        let p = deps.drop_last();
        lemma_accumulated_local_and_trusted(own, p);
        let last = deps.len() - 1;
        assert(deps[last] == deps.last());
        assert(fold_details(own, deps) == sum_details(fold_details(own, p), deps.last()));
        if exists|i: int| 0 <= i < deps.len() && (#[trigger] deps[i]).is_local_source_code {
            let i = choose|i: int| 0 <= i < deps.len() && (#[trigger] deps[i]).is_local_source_code;
            if i < last {
                assert(p[i].is_local_source_code);
            }
        } else {
            assert forall|i: int| 0 <= i < p.len() implies !(#[trigger] p[i]).is_local_source_code by {
                assert(!deps[i].is_local_source_code);
            }
        }
        if exists|i: int| 0 <= i < deps.len() && (#[trigger] deps[i]).has_trusted_ids {
            let i = choose|i: int| 0 <= i < deps.len() && (#[trigger] deps[i]).has_trusted_ids;
            if i < last {
                assert(p[i].has_trusted_ids);
            }
        } else {
            assert forall|i: int| 0 <= i < p.len() implies !(#[trigger] p[i]).has_trusted_ids by {
                assert(!deps[i].has_trusted_ids);
            }
        }
    }
}

} // verus!
