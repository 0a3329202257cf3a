use crev::error::{Error, ValidationError};
use crev::id::{Id, PublicId, UnlockedId};
use crev::level::Level;
use crev::package::{
    default_digest_type, default_revision_type, PackageId, PackageInfo, PackageVersionId,
};
use crev::package_review::{
    Advisory, Flags, FlagsDraft, Issue, Package, PackageBuilder, PackageDraft, PackageIdSet,
    VersionRange,
};
use crev::review::{Rating, Review};
use crev::trust::{OverrideItem, Trust, TrustBuilder, TrustDraft, TrustLevel};
use crev::url::Url;
use crev::version::Version;

fn v(s: &str) -> Version {
    Version::parse(s).unwrap()
}

fn info(name: &str, version: &str) -> PackageInfo {
    PackageInfo {
        id: PackageVersionId::new("https://crates.io".into(), name.into(), v(version)),
        digest: vec![0; 32],
        digest_type: default_digest_type(),
        revision: String::new(),
        revision_type: default_revision_type(),
    }
}

fn author() -> PublicId {
    UnlockedId::generate_for_git_url("https://a").id
}

#[test]
fn level_names() {
    for (l, s) in [(Level::Nil, "none"), (Level::Low, "low"), (Level::Medium, "medium"), (Level::High, "high")] {
        assert_eq!(l.as_str(), s);
        assert_eq!(Level::parse(s).unwrap(), l);
        assert_eq!(s.parse::<Level>().unwrap(), l);
    }
    assert!(Level::parse("untrust").is_err());
    assert_eq!(Level::default(), Level::Medium);
    assert!(Level::Low.is_below(&Level::High));
    assert!(!Level::High.is_below(&Level::High));
}

#[test]
fn trust_level_names() {
    assert_eq!("untrust".parse::<TrustLevel>().unwrap(), TrustLevel::Nil);
    assert_eq!("none".parse::<TrustLevel>().unwrap(), TrustLevel::Nil);
    assert_eq!("distrust".parse::<TrustLevel>().unwrap(), TrustLevel::Distrust);
    assert!("bogus".parse::<TrustLevel>().is_err());
    assert_eq!(TrustLevel::High.as_str(), "high");
    assert_eq!(TrustLevel::default(), TrustLevel::Medium);
    assert_eq!(TrustLevel::from_name("none").unwrap(), TrustLevel::Nil);
    assert_eq!(TrustLevel::from_name("untrust").err(), Some(Error::UnknownLevel("untrust".into())));
    for t in [TrustLevel::Distrust, TrustLevel::Nil, TrustLevel::Low, TrustLevel::Medium, TrustLevel::High] {
        assert_eq!(TrustLevel::parse(t.as_str()).unwrap(), t);
    }
    assert!(TrustLevel::Distrust.is_below(&TrustLevel::Nil));
}

#[test]
fn trust_level_from_level_keeps_name_and_order() {
    let levels = [Level::Nil, Level::Low, Level::Medium, Level::High];
    for a in levels {
        assert_eq!(TrustLevel::from(a).as_str(), a.as_str());
        for b in levels {
            assert_eq!(a.is_below(&b), TrustLevel::from(a).is_below(&TrustLevel::from(b)));
        }
    }
}

#[test]
fn review_constructors() {
    assert!(Review::default().is_none());
    assert!(Review::new_none().is_none());
    assert!(!Review::new_positive().is_none());
    assert_eq!(Review::new_negative().rating, Rating::Negative);
    assert_eq!(Review::new_positive().thoroughness, Level::Low);
    assert_eq!(Rating::default(), Rating::Neutral);
    assert_eq!(Rating::Strong.as_str(), "strong");
}

#[test]
fn version_range_text() {
    for r in [VersionRange::Minor, VersionRange::Major, VersionRange::All] {
        assert_eq!(VersionRange::parse(r.as_str()).unwrap(), r);
    }
    assert!("any".parse::<VersionRange>().is_err());
    assert_eq!(VersionRange::default(), VersionRange::All);
    assert!(VersionRange::all().is_all_ref());
    assert!(!VersionRange::Major.is_all_ref());
}

#[test]
fn advisory_and_issue_split_versions() {
    let mut advisory = Advisory::from(VersionRange::Major);
    advisory.ids = vec!["RUSTSEC-1".into()];
    let issue = {
        let mut i = Issue::new("RUSTSEC-1".into());
        i.range = VersionRange::Major;
        i
    };
    let reported = v("1.4.0");
    for (for_v, adv, iss) in [("1.3.9", true, false), ("1.4.0", false, true), ("1.5.0", false, true), ("0.9.0", false, false), ("2.0.0", false, false)] {
        assert_eq!(advisory.is_for_version_when_reported_in_version(&v(for_v), &reported), adv, "{}", for_v);
        assert_eq!(issue.is_for_version_when_reported_in_version(&v(for_v), &reported), iss, "{}", for_v);
    }
    let all = Advisory::from(VersionRange::All);
    assert!(all.is_for_version_when_reported_in_version(&v("0.1.0"), &reported));
    let minor = Advisory::from(VersionRange::Minor);
    assert!(minor.is_for_version_when_reported_in_version(&v("1.4.0-rc.1"), &reported));
    assert!(!minor.is_for_version_when_reported_in_version(&v("1.3.0"), &reported));
    assert_eq!(Issue::new_with_severity("x".into(), Level::High).severity, Level::High);
    assert_eq!(Issue::new("x".into()).severity, Level::Medium);
}

#[test]
fn flags_add() {
    let t = Flags { unmaintained: true };
    let f = Flags::default();
    assert_eq!(t + f, t);
    assert_eq!(f + f, f);
    assert_eq!(f + t, t + f);
    assert_eq!(Flags::from(FlagsDraft::from(t)), t);
}

fn package() -> Package {
    let mut b = PackageBuilder::default();
    b.from(author()).package(info("log", "0.4.6")).review(Review::new_positive());
    b.build().unwrap()
}

#[test]
fn package_builder_and_accessors() {
    let mut p = package();
    assert_eq!(p.kind(), "package review");
    assert_eq!(p.common.version, -1);
    assert!(p.validate_data().is_ok());
    assert_eq!(p.review(), Some(&Review::new_positive()));
    *p.review_possibly_none_mut() = Review::new_none();
    assert_eq!(p.review(), None);
    assert!(p.review_possibly_none().is_none());
    p.common.kind = None;
    p.ensure_kind_is_backfilled();
    assert_eq!(p.common.kind.as_deref(), Some("package review"));
    let other = author();
    p.change_from(other.clone());
    assert_eq!(p.common.from, other);
    assert_eq!(p.draft_title(), "Package Review of log 0.4.6");
    let err = PackageBuilder::default().build().err();
    assert_eq!(err, Some(Error::BuildingProof("`common` must be initialized".into())));
}

#[test]
fn package_validation_errors() {
    let mut p = package();
    p.alternatives = PackageIdSet::from_vec(vec![PackageId { source: "".into(), name: "x".into() }]);
    assert_eq!(p.validate_data(), Err(ValidationError::AlternativeSourceCanNotBeEmpty));
    p.alternatives = PackageIdSet::from_vec(vec![PackageId { source: "s".into(), name: "".into() }]);
    assert_eq!(p.validate_data(), Err(ValidationError::AlternativeNameCanNotBeEmpty));
    p.alternatives = PackageIdSet::new();
    p.issues = vec![Issue::new("".into())];
    assert_eq!(p.validate_data(), Err(ValidationError::IssuesWithAnEmptyIDFieldAreNotAllowed));
    p.issues = vec![];
    p.advisories = vec![Advisory::default()];
    assert_eq!(p.validate_data(), Err(ValidationError::AdvisoriesWithNoIDSAreNotAllowed));
    let mut a = Advisory::default();
    a.ids = vec!["ok".into(), "".into()];
    p.advisories = vec![a];
    assert_eq!(p.validate_data(), Err(ValidationError::AdvisoriesWithAnEmptyIDFieldAreNotAllowed));
    p.advisories = vec![];
    p.common.kind = Some("trust".into());
    assert_eq!(
        p.validate_data(),
        Err(ValidationError::InvalidKind("trust".into(), "package review".into()))
    );
}

#[test]
fn package_advisory_lookup() {
    let mut p = package();
    let mut a = Advisory::from(VersionRange::Minor);
    a.ids = vec!["X".into()];
    p.advisories = vec![a];
    assert!(p.is_advisory_for(&v("0.4.5")));
    assert!(!p.is_advisory_for(&v("0.4.6")));
    assert!(!p.is_advisory_for(&v("0.3.0")));
}

#[test]
fn package_draft_roundtrip() {
    let p = package();
    let draft = PackageDraft::from(p.clone());
    assert_eq!(draft.alternatives.len(), 1);
    assert_eq!(draft.alternatives[0].source, "https://crates.io");
    assert_eq!(draft.alternatives[0].name, "");
    let back = p.apply_draft(draft).unwrap();
    assert!(back.alternatives.is_empty());
    assert_eq!(back.review(), p.review());
    assert_eq!(back.comment, p.comment);
}

#[test]
fn package_draft_keeps_named_alternatives_once() {
    let p = package();
    let mut draft = PackageDraft::from(p.clone());
    draft.alternatives = vec![
        PackageId { source: "s".into(), name: "a".into() },
        PackageId { source: "s".into(), name: "".into() },
        PackageId { source: "s".into(), name: "a".into() },
        PackageId { source: "s".into(), name: "b".into() },
    ];
    draft.comment = "new".into();
    draft.flags = FlagsDraft { unmaintained: true };
    let n = p.apply_draft(draft).unwrap();
    assert_eq!(n.alternatives.to_vec(), vec![
        PackageId { source: "s".into(), name: "a".into() },
        PackageId { source: "s".into(), name: "b".into() },
    ]);
    assert_eq!(n.comment, "new");
    assert!(n.flags.unmaintained);
    let mut bad = PackageDraft::from(p.clone());
    bad.issues = vec![Issue::new("".into())];
    assert_eq!(
        p.apply_draft(bad).err(),
        Some(Error::Validation(ValidationError::IssuesWithAnEmptyIDFieldAreNotAllowed))
    );
}

#[test]
fn parse_package_overrides() {
    let over = OverrideItem {
        id: PublicId::new(
            Id::crevid_from_str("-sApEowWcAS9J0R7aO18cghvhLBpuMhyeUuWQq_fits").unwrap(),
            Url::new_git("https://github.com/foo/bar".into()),
        ),
        comment: "TEST".into(),
    };
    let mut p = package();
    p.override_ = vec![over];
    p.validate_data().unwrap();
    let draft = PackageDraft::from(p.clone());
    assert_eq!(p.override_.len(), 1);
    assert_eq!(draft.override_.len(), 1);
    assert_eq!(draft.override_[0].id.id.to_string(), "-sApEowWcAS9J0R7aO18cghvhLBpuMhyeUuWQq_fits");
    let new_proof = p.apply_draft(draft).unwrap();
    assert_eq!(p.override_.len(), new_proof.override_.len());
}

#[test]
fn trust_proofs() {
    let me = author();
    let them = vec![author(), author()];
    let t = me.create_trust_proof(&them, TrustLevel::High).unwrap();
    assert_eq!(t.kind(), "trust");
    assert_eq!(t.trust, TrustLevel::High);
    assert_eq!(t.ids.len(), 2);
    assert!(t.validate_data().is_ok());
    let title = t.draft_title();
    assert!(title.starts_with(&format!("Trust for {} https://a", them[0].id.to_string())));
    assert!(title.ends_with(" and 1 other"));
    let mut draft = TrustDraft::from(t.clone());
    draft.trust = TrustLevel::Distrust;
    draft.comment = "bad".into();
    let t2 = t.apply_draft(draft).unwrap();
    assert_eq!(t2.trust, TrustLevel::Distrust);
    assert_eq!(t2.comment, "bad");
    let same = t.apply_draft(TrustDraft::from(t.clone())).unwrap();
    assert_eq!(same.trust, t.trust);
    assert_eq!(same.ids, t.ids);
    let mut wrong = t.clone();
    wrong.common.kind = Some("package review".into());
    assert_eq!(
        wrong.apply_draft(TrustDraft::from(t.clone())).err(),
        Some(Error::Validation(ValidationError::InvalidKind("package review".into(), "trust".into())))
    );
    let none = TrustBuilder::default().build().err();
    assert_eq!(none, Some(Error::BuildingProof("`common` must be initialized".into())));
    let mut b = TrustBuilder::default();
    b.from(me);
    assert_eq!(b.build().err(), Some(Error::BuildingProof("`ids` must be initialized".into())));
    let empty = Trust { ids: vec![], ..t.clone() };
    assert_eq!(empty.draft_title(), "Trust for noone?!");
    let one = Trust { ids: vec![them[0].clone()], ..t };
    assert_eq!(one.draft_title(), format!("Trust for {} https://a", them[0].id.to_string()));
}

#[test]
fn package_review_proof_by_id() {
    let me = author();
    let p = me
        .create_package_review_proof(info("name", "1.0.0"), Review::default(), vec![], "a".into())
        .unwrap();
    assert_eq!(p.comment, "a");
    assert!(p.review().is_none());
    assert_eq!(p.common.from, me);
    assert!(p.validate_data().is_ok());
}

#[test]
fn versions() {
    let a = v("1.2.3-alpha.1+build.5");
    assert_eq!(a.major(), 1);
    assert_eq!(a.minor(), 2);
    assert_eq!(a.patch(), 3);
    assert_eq!(a.to_string(), "1.2.3-alpha.1+build.5");
    assert_eq!(Version::new(4, 5, 6).to_string(), "4.5.6");
    assert!(v("1.0.0-alpha").lt(&v("1.0.0")));
    assert!(!v("1.0.0").lt(&v("1.0.0")));
    assert!(v("0.9.9").lt(&v("1.0.0")));
    assert!(Version::parse("1.0").is_none());
}

use crev::package_review::{prepare_package_review, AdviseCommon, TrustProofType};

#[test]
fn prepared_reviews() {
    let fresh = package();
    // a fresh review of trust starts positive
    let (date, r) = prepare_package_review(None, fresh.clone(), None, TrustProofType::Trust, None, None, None, vec![]);
    assert!(date.is_none());
    assert_eq!(r.review(), Some(&Review::new_positive()));
    // an issue report makes it negative, with an issue of that severity
    let (_, r) = prepare_package_review(None, fresh.clone(), None, TrustProofType::Trust, None, Some(Level::High), None, vec![]);
    assert_eq!(r.issues.len(), 1);
    assert_eq!(r.issues[0].severity, Level::High);
    assert_eq!(r.review_possibly_none().rating, Rating::Negative);
    // an advisory keeps the review empty
    let advise = AdviseCommon { affected: VersionRange::Major, severity: Level::Low };
    let (_, r) = prepare_package_review(None, fresh.clone(), None, TrustProofType::Trust, Some(advise), None, Some(Flags { unmaintained: true }), vec![]);
    assert!(r.review().is_none());
    assert_eq!(r.advisories.len(), 1);
    assert_eq!(r.advisories[0].range, VersionRange::Major);
    assert!(r.flags.unmaintained);
    // a previous review is continued; untrust empties it
    let mut prev = package();
    prev.comment = "old".into();
    let (date, r) = prepare_package_review(Some(prev.clone()), fresh.clone(), None, TrustProofType::Untrust, None, None, None, vec![]);
    assert_eq!(date, Some(prev.common.date));
    assert_eq!(r.comment, "old");
    assert!(r.review().is_none());
    // a differential review takes over the base review
    let mut base = package();
    base.comment = "base".into();
    *base.review_possibly_none_mut() = Review::new_negative();
    let (_, r) = prepare_package_review(None, fresh, Some(&base), TrustProofType::Trust, None, None, None, vec![]);
    assert_eq!(r.comment, "base");
    assert_eq!(r.review(), Some(&Review::new_negative()));
    assert_eq!(TrustProofType::Distrust.to_review(), Review::new_negative());
    assert_eq!(AdviseCommon::default().affected, VersionRange::All);
}

use crev::package_review::already_reissued;

#[test]
fn reissuing_reviews() {
    let orig = package();
    let author_id = orig.common.from.id.clone();
    assert!(orig.is_selected_for_reissue(&author_id, None, None));
    assert!(orig.is_selected_for_reissue(&author_id, Some(&"log".to_string()), Some(&v("0.4.6"))));
    assert!(!orig.is_selected_for_reissue(&author_id, Some(&"log".to_string()), Some(&v("0.4.7"))));
    assert!(!orig.is_selected_for_reissue(&author_id, Some(&"other".to_string()), None));
    let signer = UnlockedId::generate_for_git_url("https://s").id;
    assert!(!orig.is_selected_for_reissue(&signer.id, None, None));
    let r = orig.reissued(signer.clone(), vec![9; 32], "moved".into());
    assert_eq!(r.common.from, signer);
    assert_eq!(r.common.kind.as_deref(), Some("package review"));
    let o = r.common.original.as_ref().unwrap();
    assert_eq!(o.proof, vec![9; 32]);
    assert_eq!(o.comment, "moved");
    assert_eq!(r.package, orig.package);
    assert!(already_reissued(&vec![r.clone()], &signer.id, &orig));
    assert!(!already_reissued(&vec![orig.clone()], &signer.id, &orig));
}

#[test]
fn alternatives_hold_each_id_once() {
    let a = PackageId { source: "s".into(), name: "a".into() };
    let b = PackageId { source: "s".into(), name: "b".into() };
    let mut set = PackageIdSet::from_vec(vec![a.clone(), b.clone(), a.clone()]);
    assert_eq!(set.len(), 2);
    assert_eq!(set.to_vec(), vec![a.clone(), b.clone()]);
    assert!(!set.insert(b.clone()));
    assert!(set.insert(PackageId { source: "t".into(), name: "a".into() }));
    assert_eq!(set.len(), 3);
    assert!(set.contains(&a));
    let mut builder = PackageBuilder::default();
    builder.from(author()).package(info("log", "0.4.6")).alternatives(vec![a.clone(), a.clone(), b.clone()]);
    let p = builder.build().unwrap();
    assert_eq!(p.alternatives.to_vec(), vec![a, b]);
    assert!(p.validate_data().is_ok());
}
