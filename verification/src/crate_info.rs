//! What `cargo crev crate info` reports of a crate.
use vstd::prelude::*;
use crate::cli::CrateSelector;
use crate::crate_stats::{opt_int, AccumulativeCrateDetails};
use crate::package::{PackageId, PackageVersionId, PackageVersionIdView};
use crate::package_review::{clone_package_ids, each_once, package_ids_view, PackageIdSet};
use crate::verify_output::CrateStats;

verus! {

/// The flags and counts reported of a crate (alone, or with its
/// dependencies).
#[derive(Debug, Clone, Copy, PartialEq, Eq, Structural)]
pub struct Details {
    pub verified: bool,
    pub loc: Option<u64>,
    pub geiger_count: Option<u64>,
    pub has_custom_build: bool,
    pub unmaintained: bool,
}

/// What is reported of accumulated details.
pub open spec fn details_of(d: AccumulativeCrateDetails) -> Details {
    Details {
        verified: d.verified,
        loc: d.loc,
        geiger_count: d.geiger_count,
        has_custom_build: d.has_custom_build,
        unmaintained: d.is_unmaintained,
    }
}

impl From<AccumulativeCrateDetails> for Details {
    fn from(details: AccumulativeCrateDetails) -> (r: Details)
        ensures
            r == details_of(details),
    {
        Details {
            verified: details.verified,
            loc: details.loc,
            geiger_count: details.geiger_count,
            has_custom_build: details.has_custom_build,
            unmaintained: details.is_unmaintained,
        }
    }
}

impl vstd::std_specs::convert::FromSpecImpl<AccumulativeCrateDetails> for Details {
    open spec fn obeys_from_spec() -> bool {
        true
    }

    open spec fn from_spec(details: AccumulativeCrateDetails) -> Details {
        details_of(details)
    }
}

/// The report on a crate: its id, its own details and those with its
/// dependencies, what it depends on and what depends on it, and the
/// alternatives trusted ids suggest.
#[derive(Debug)]
pub struct CrateInfoOutput {
    pub package: PackageVersionId,
    pub details: Details,
    pub recursive_details: Details,
    pub dependencies: Vec<PackageVersionId>,
    pub rev_dependencies: Vec<PackageVersionId>,
    pub alternatives: Vec<PackageId>,
}

/// The views of a sequence of package versions.
pub open spec fn versions_view(v: Seq<PackageVersionId>) -> Seq<PackageVersionIdView> {
    v.map_values(|p: PackageVersionId| p@)
}

fn clone_versions(v: &Vec<PackageVersionId>) -> (r: Vec<PackageVersionId>)
    ensures
        versions_view(r@) == versions_view(v@),
{
    let mut r: Vec<PackageVersionId> = Vec::new();
    let mut i: usize = 0;
    while i < v.len()
        invariant
            i <= v.len(),
            versions_view(r@) == versions_view(v@.take(i as int)),
        decreases v.len() - i,
    {
        let ghost old_r = r@;
        let c = v[i].clone();
        r.push(c);
        assert(versions_view(r@) =~= versions_view(old_r).push(v@[i as int]@));
        assert(versions_view(v@.take(i + 1)) =~= versions_view(v@.take(i as int)).push(
            v@[i as int]@,
        ));
        i = i + 1;
    }
    assert(v@.take(v.len() as int) == v@);
    r
}

/// Is there a crate with this id among `deps`?
pub open spec fn has_crate(deps: Seq<CrateStats>, id: PackageVersionIdView) -> bool {
    exists|i: int| 0 <= i < deps.len() && (#[trigger] deps[i]).info.id@ == id
}

/// The report on the crate `pkg_id`, the first crate of `deps` with that
/// id, with the given alternatives (each once); an error where no crate
/// was named.
pub fn get_crate_info(
    root_crate: &CrateSelector,
    deps: &Vec<CrateStats>,
    pkg_id: &PackageVersionId,
    alternatives: &Vec<PackageId>,
) -> (r: Result<CrateInfoOutput, String>)
    requires
        root_crate.name_arg() is Some ==> has_crate(deps@, pkg_id@),
    ensures
        r is Err <==> root_crate.name_arg() is None,
        r matches Err(e) ==> e@ == "Crate selector required"@,
        r matches Ok(o) ==> exists|i: int|
            0 <= i < deps@.len() && (#[trigger] deps@[i]).info.id@ == pkg_id@ && (forall|k: int|
                0 <= k < i ==> (#[trigger] deps@[k]).info.id@ != pkg_id@) && o.package@
                == deps@[i].info.id@ && o.details == details_of(deps@[i].details.accumulative_own)
                && o.recursive_details == details_of(deps@[i].details.accumulative_recursive)
                && versions_view(o.dependencies@) == versions_view(deps@[i].details.dependencies@)
                && versions_view(o.rev_dependencies@) == versions_view(
                deps@[i].details.rev_dependencies@,
            ),
        r matches Ok(o) ==> package_ids_view(o.alternatives@) == each_once(
            package_ids_view(alternatives@),
        ),
{
    if root_crate.ensure_name_given().is_err() {
        proof {
            reveal_strlit("Crate selector required");
        }
        return Err(String::from_str("Crate selector required"));
    }
    let mut i: usize = 0;
    while i < deps.len() && !deps[i].info.id.same_as(pkg_id)
        invariant
            i <= deps.len(),
            has_crate(deps@, pkg_id@),
            forall|k: int| 0 <= k < i ==> (#[trigger] deps@[k]).info.id@ != pkg_id@,
        decreases deps.len() - i,
    {
        i = i + 1;
    }
    if i == deps.len() {
        proof {
            let k = choose|k: int| 0 <= k < deps@.len() && (#[trigger] deps@[k]).info.id@ == pkg_id@;
            assert(deps@[k].info.id@ != pkg_id@);
        }
    }
    let stats = &deps[i];
    let d = &stats.details;
    let own = &d.accumulative_own;
    let rec = &d.accumulative_recursive;
    Ok(
        CrateInfoOutput {
            package: stats.info.id.clone(),
            details: Details {
                verified: own.verified,
                loc: own.loc,
                geiger_count: own.geiger_count,
                has_custom_build: own.has_custom_build,
                unmaintained: own.is_unmaintained,
            },
            recursive_details: Details {
                verified: rec.verified,
                loc: rec.loc,
                geiger_count: rec.geiger_count,
                has_custom_build: rec.has_custom_build,
                unmaintained: rec.is_unmaintained,
            },
            dependencies: clone_versions(&d.dependencies),
            rev_dependencies: clone_versions(&d.rev_dependencies),
            alternatives: PackageIdSet::from_vec(clone_package_ids(alternatives)).into_vec(),
        },
    )
}

} // verus!
