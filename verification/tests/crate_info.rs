use crev::cli::CrateSelector;
use crev::crate_info::{get_crate_info, Details};
use crev::crate_stats::{AccumulativeCrateDetails, CountWithTotal, OwnerSetSet, VerificationStatus};
use crev::package::{PackageId, PackageVersionId};
use crev::verify_output::{CrateDetails, CrateInfo, CrateStats};
use crev::version::Version;

fn pkg(name: &str) -> PackageVersionId {
    PackageVersionId::new("https://crates.io".into(), name.into(), Version::new(0, 1, 0))
}

fn acc(name: &str, loc: Option<u64>, unmaintained: bool) -> AccumulativeCrateDetails {
    AccumulativeCrateDetails {
        trust: VerificationStatus::Insufficient,
        has_trusted_ids: true,
        trusted_issues: CountWithTotal { count: 0, total: 0 },
        verified: false,
        loc,
        geiger_count: None,
        has_custom_build: true,
        is_unmaintained: unmaintained,
        owner_set: OwnerSetSet::new(pkg(name), vec![]),
        is_local_source_code: false,
    }
}

fn stats(name: &str, loc: u64) -> CrateStats {
    CrateStats {
        info: CrateInfo { id: pkg(name), from_registry: true, root: String::new(), has_custom_build: true },
        details: CrateDetails {
            digest: None,
            latest_trusted_version: None,
            trusted_reviewers: vec![],
            version_reviews: CountWithTotal { count: 0, total: 0 },
            downloads: None,
            known_owners: None,
            leftpad_idx: 0,
            dependencies: vec![pkg("dep")],
            rev_dependencies: vec![],
            digest_mismatches: vec![],
            accumulative_own: acc(name, Some(loc), false),
            accumulative_recursive: acc(name, None, true),
            accumulative: acc(name, Some(loc), false),
        },
    }
}

fn alt(name: &str) -> PackageId {
    PackageId { source: "https://crates.io".into(), name: name.into() }
}

#[test]
fn details_from_accumulated() {
    let d: Details = acc("a", Some(5), true).into();
    assert_eq!(
        d,
        Details { verified: false, loc: Some(5), geiger_count: None, has_custom_build: true, unmaintained: true }
    );
}

#[test]
fn crate_info_report() {
    let deps = vec![stats("a", 1), stats("b", 2), stats("b", 3)];
    let sel = CrateSelector::new(Some("b".into()), None, false);
    let alts = vec![alt("x"), alt("y"), alt("x")];
    let info = get_crate_info(&sel, &deps, &pkg("b"), &alts).unwrap();
    assert_eq!(info.package, pkg("b"));
    // the first crate with the id
    assert_eq!(info.details.loc, Some(2));
    assert_eq!(info.recursive_details.loc, None);
    assert!(info.recursive_details.unmaintained);
    assert_eq!(info.dependencies, vec![pkg("dep")]);
    assert!(info.rev_dependencies.is_empty());
    assert_eq!(info.alternatives, vec![alt("x"), alt("y")]);
}

#[test]
fn crate_info_needs_a_name() {
    let deps = vec![stats("a", 1)];
    let sel = CrateSelector::new(None, None, false);
    let r = get_crate_info(&sel, &deps, &pkg("a"), &vec![]);
    assert_eq!(r.err(), Some("Crate selector required".to_string()));
}
