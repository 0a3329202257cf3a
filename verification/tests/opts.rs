use crev::cli::CrateSelector;
use crev::level::Level;
use crev::opts::{CargoOpts, CommonProofCreate, CrateReview, ReviewOrGotoCommon};
use crev::package_review::{AdviseCommon, TrustProofType, VersionRange};

fn review_args() -> CrateReview {
    CrateReview {
        common: ReviewOrGotoCommon { crate_: CrateSelector::new(Some("foo".into()), None, false) },
        common_proof_create: CommonProofCreate {
            no_commit: false,
            print_unsigned: false,
            print_signed: false,
            no_store: false,
        },
        advisory: false,
        affected: None,
        severity: None,
        issue: false,
        skip_activity_check: false,
        diff: None,
        cargo_opts: CargoOpts::default(),
    }
}

#[test]
fn plain_review_plan() {
    let p = review_args().plan(TrustProofType::Trust);
    assert_eq!(p.issue, None);
    assert_eq!(p.advise, None);
    assert_eq!(p.trust, TrustProofType::Trust);
    assert!(!p.skip_activity_check);
    assert_eq!(review_args().plan(TrustProofType::Untrust).trust, TrustProofType::Untrust);
}

#[test]
fn advisory_review_plans() {
    let mut a = review_args();
    a.severity = Some(Level::High);
    let p = a.plan(TrustProofType::Trust);
    assert_eq!(p.advise, Some(AdviseCommon { severity: Level::High, affected: VersionRange::Major }));
    assert_eq!(p.trust, TrustProofType::Distrust);
    assert!(p.skip_activity_check);

    let mut b = review_args();
    b.affected = Some(VersionRange::Minor);
    assert_eq!(
        b.plan(TrustProofType::Trust).advise,
        Some(AdviseCommon { severity: Level::Medium, affected: VersionRange::Minor })
    );
}

#[test]
fn issue_review_plan() {
    let mut a = review_args();
    a.issue = true;
    a.severity = Some(Level::Low);
    let p = a.plan(TrustProofType::Trust);
    // a severity with an issue is the issue's, not an advisory
    assert_eq!(p.issue, Some(Level::Medium));
    assert_eq!(p.advise, None);
    assert_eq!(p.trust, TrustProofType::Distrust);
    assert!(p.skip_activity_check);
}
