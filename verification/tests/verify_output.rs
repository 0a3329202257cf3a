use crev::cli::{verification_status_color, CrateVerifyColumns, VerifyOutputColumnWidths};
use crev::crate_stats::{
    accumulate_details, AccumulativeCrateDetails, CountWithTotal, DownloadsStats, OwnerSetSet,
    VerificationStatus,
};
use crev::cli::CommandExitStatus;
use crev::digest::Digest;
use crev::id::{Id, PublicId};
use crev::package::{default_digest_type, default_revision_type, PackageInfo, PackageVersionId};
use crev::level::Level;
use crev::opts::{
    CargoOpts, CrateVerify, CrateVerifyCommon, TrustDistanceParams, TrustLevelRequirements,
    VerificationRequirements,
};
use crev::review::Review;
use crev::url::Url;
use crev::verify_output::{
    crate_has_known_owner, crate_is_listed, crate_mvps, known_owners_counts, leftpad_index, mismatch_notice,
    mismatch_report, print_dep, print_header, verify_exit_status, verify_summary, write_details,
    ColoredText, CrateDetails, CrateInfo, CrateStats, RequiredDetails,
};
use crev::version::Version;
use crev::verify_output::{crate_source, source_ignore_list};

fn pkg(name: &str) -> PackageVersionId {
    PackageVersionId::new("https://crates.io".into(), name.into(), Version::new(1, 2, 3))
}

fn names(v: &[&str]) -> Vec<String> {
    v.iter().map(|s| s.to_string()).collect()
}

fn own(name: &str, trust: VerificationStatus, owners: &[&str]) -> AccumulativeCrateDetails {
    AccumulativeCrateDetails {
        trust,
        has_trusted_ids: true,
        trusted_issues: CountWithTotal { count: 0, total: 1 },
        verified: trust == VerificationStatus::Verified,
        loc: Some(100),
        geiger_count: Some(3),
        has_custom_build: false,
        is_unmaintained: false,
        owner_set: OwnerSetSet::new(pkg(name), names(owners)),
        is_local_source_code: false,
    }
}

fn details(name: &str, trust: VerificationStatus) -> CrateDetails {
    CrateDetails {
        digest: None,
        latest_trusted_version: Some(Version::new(1, 3, 0)),
        trusted_reviewers: vec![],
        version_reviews: CountWithTotal { count: 2, total: 10 },
        downloads: Some(DownloadsStats { version: 1500, total: 250000, recent: 700 }),
        known_owners: Some(CountWithTotal { count: 1, total: 2 }),
        leftpad_idx: 7,
        dependencies: vec![],
        rev_dependencies: vec![],
        digest_mismatches: vec![],
        accumulative_own: own(name, trust, &["alice"]),
        accumulative_recursive: own(name, trust, &["alice"]),
        accumulative: own(name, trust, &["alice"]),
    }
}

fn texts(v: &[ColoredText]) -> Vec<(String, Option<u32>)> {
    v.iter().map(|t| (t.text.clone(), t.color)).collect()
}

fn all_columns() -> CrateVerifyColumns {
    let mut c = CrateVerifyColumns::default();
    c.show_all = true;
    c
}

#[test]
fn status_colors() {
    assert_eq!(verification_status_color(VerificationStatus::Verified), Some(2));
    assert_eq!(verification_status_color(VerificationStatus::Local), Some(2));
    assert_eq!(verification_status_color(VerificationStatus::Insufficient), None);
    assert_eq!(verification_status_color(VerificationStatus::Negative), Some(3));
}

#[test]
fn status_min_is_the_worse() {
    let (neg, ins, ver, loc) = (
        VerificationStatus::Negative,
        VerificationStatus::Insufficient,
        VerificationStatus::Verified,
        VerificationStatus::Local,
    );
    assert_eq!(ver.min(ins), ins);
    assert_eq!(loc.min(ver), ver);
    assert_eq!(ins.min(neg), neg);
    assert_eq!(loc.min(loc), loc);
    assert!(ver.is_verified());
    assert!(!loc.is_verified());
}

#[test]
fn details_add_up() {
    let a = own("a", VerificationStatus::Verified, &["alice"]);
    let mut b = own("b", VerificationStatus::Insufficient, &["bob"]);
    b.loc = None;
    b.is_unmaintained = true;
    let s = a + b;
    assert_eq!(s.trust, VerificationStatus::Insufficient);
    assert!(!s.verified);
    assert_eq!(s.trusted_issues, CountWithTotal { count: 0, total: 2 });
    assert_eq!(s.loc, None);
    assert_eq!(s.geiger_count, Some(6));
    assert!(s.is_unmaintained);
    assert_eq!(s.owner_set.to_total_owners(), 2);
}

#[test]
fn accumulated_details_are_the_worst() {
    let a = own("a", VerificationStatus::Verified, &["alice"]);
    let deps = vec![
        own("b", VerificationStatus::Local, &["bob"]),
        own("c", VerificationStatus::Negative, &["carol"]),
        own("d", VerificationStatus::Verified, &["alice"]),
    ];
    let r = accumulate_details(a, deps);
    assert_eq!(r.trust, VerificationStatus::Negative);
    assert!(!r.verified);
    assert_eq!(r.loc, Some(400));
    assert_eq!(r.trusted_issues, CountWithTotal { count: 0, total: 4 });
    assert_eq!(r.owner_set.to_total_owners(), 3);
    // the equal groups of `a` and `d` hold each other
    assert_eq!(r.owner_set.to_total_distinct_groups(), 2);

    let alone = accumulate_details(own("a", VerificationStatus::Verified, &["x"]), vec![]);
    assert_eq!(alone.trust, VerificationStatus::Verified);
    assert!(alone.verified);
}

#[test]
fn known_owner_counts() {
    let c = known_owners_counts(
        &names(&["alice", "bob", "alice", "carol"]),
        &names(&["alice", "dave"]),
    );
    assert_eq!(c, CountWithTotal { count: 2, total: 4 });
    let none = known_owners_counts(&vec![], &names(&["alice"]));
    assert_eq!(none, CountWithTotal { count: 0, total: 0 });
}

#[test]
fn leftpad_indexes() {
    let d = Some(DownloadsStats { version: 0, total: 0, recent: 1000 });
    assert_eq!(leftpad_index(d, Some(30)), 33);
    assert_eq!(leftpad_index(d, Some(0)), 0);
    assert_eq!(leftpad_index(d, None), 0);
    assert_eq!(leftpad_index(None, Some(3)), 0);
}

#[test]
fn default_header() {
    let widths = VerifyOutputColumnWidths { name: 5, version: 7 };
    assert_eq!(
        print_header(&CrateVerifyColumns::default(), widths),
        "status crate version \n"
    );
}

#[test]
fn full_header() {
    let widths = VerifyOutputColumnWidths { name: 8, version: 9 };
    let mut columns = all_columns();
    columns.show_digest = Some(Some(true));
    assert_eq!(
        print_header(&columns, widths),
        "status reviews issues owner      downloads    loc lpidx geiger flgs crate    version   latest_t    digest\n"
    );
}

#[test]
fn detail_columns_of_all() {
    let d = details("foo", VerificationStatus::Verified);
    let row = texts(&write_details(&d, &all_columns(), false, 3));
    assert_eq!(
        row,
        vec![
            ("pass   ".to_string(), Some(2)),
            ("  2  10 ".to_string(), None),
            (" 0 ".to_string(), None),
            ("  1 ".to_string(), Some(3)),
            (" 1 ".to_string(), Some(2)),
            (" 2 ".to_string(), None),
            ("    1K ".to_string(), Some(3)),
            ("   250K ".to_string(), None),
            ("   100 ".to_string(), None),
            ("    3 ".to_string(), None),
        ]
    );
}

#[test]
fn detail_columns_of_local_and_unknown() {
    let mut d = details("foo", VerificationStatus::Local);
    d.accumulative.is_local_source_code = true;
    d.accumulative.loc = None;
    d.known_owners = None;
    d.downloads = None;
    let row = texts(&write_details(&d, &all_columns(), false, 0));
    assert_eq!(row.len(), 9);
    assert_eq!(row[0], ("local  ".to_string(), None));
    assert_eq!(row[4], (" ? ".to_string(), None));
    assert_eq!(row[5], (" ? ".to_string(), None));
    assert_eq!(row[6], ("       ?         ? ".to_string(), None));
    assert_eq!(row[7], ("   err ".to_string(), None));
}

#[test]
fn detail_columns_without_trusted_ids() {
    let mut d = details("foo", VerificationStatus::Insufficient);
    d.accumulative.has_trusted_ids = false;
    let row = texts(&write_details(&d, &CrateVerifyColumns::default(), true, 0));
    // no column is shown unless asked for
    assert_eq!(row, vec![("N/A    ".to_string(), None)]);

    d.accumulative.trust = VerificationStatus::Negative;
    let row = texts(&write_details(&d, &CrateVerifyColumns::default(), true, 0));
    assert_eq!(row[0], ("flagged ".to_string(), Some(3)));
}

#[test]
fn detail_owner_columns_in_recursive_mode() {
    let mut d = details("foo", VerificationStatus::Verified);
    d.accumulative = own("foo", VerificationStatus::Verified, &["alice", "bob"])
        + own("bar", VerificationStatus::Verified, &["bob"]);
    let mut columns = CrateVerifyColumns::default();
    columns.show_owners = Some(Some(true));
    columns.show_issues = Some(Some(false));
    let row = texts(&write_details(&d, &columns, true, 0));
    assert_eq!(row, vec![("pass   ".to_string(), Some(2)), (" 2  1 ".to_string(), None)]);
}

#[test]
fn dependency_row() {
    let mut d = details("foo", VerificationStatus::Verified);
    d.accumulative.has_custom_build = true;
    let stats = CrateStats {
        info: CrateInfo {
            id: pkg("foo"),
            from_registry: false,
            root: "/src/foo".to_string(),
            has_custom_build: true,
        },
        details: d,
    };
    let widths = VerifyOutputColumnWidths { name: 5, version: 7 };
    let mut columns = CrateVerifyColumns::default();
    // given without a value, these columns take their defaults
    columns.show_issues = Some(None);
    columns.show_flags = Some(None);
    columns.show_latest_trusted = Some(None);
    columns.show_owners = Some(None);
    let row = texts(&print_dep(&stats, &columns, false, widths, 0));
    assert_eq!(
        row,
        vec![
            ("pass   ".to_string(), Some(2)),
            (" 0 ".to_string(), None),
            ("  1 ".to_string(), Some(3)),
            ("CB".to_string(), Some(3)),
            ("__".to_string(), None),
            (" ".to_string(), None),
            ("foo   1.2.3*  ".to_string(), None),
            ("↑1.3.0      ".to_string(), None),
            ("\n".to_string(), None),
        ]
    );
    assert!(!stats.has_digest_mismatch());
    assert!(stats.has_custom_build());
    assert!(!stats.is_unmaintained());
}

fn verify_args(columns: CrateVerifyColumns, skip_known_owners: bool, skip_verified: bool) -> CrateVerify {
    CrateVerify {
        common: CrateVerifyCommon {
            trust_params: TrustDistanceParams::default(),
            requirements: VerificationRequirements {
                trust_level: TrustLevelRequirements { trust_level: Level::Low },
                redundancy: 1,
                understanding_level: Level::Nil,
                thoroughness_level: Level::Nil,
            },
            for_id: None,
            cargo_opts: CargoOpts::default(),
        },
        columns,
        interactive: false,
        skip_verified,
        skip_known_owners,
        skip_indirect: false,
        recursive: false,
    }
}

fn stats(name: &str, version: Version, trust: VerificationStatus) -> CrateStats {
    CrateStats {
        info: CrateInfo {
            id: PackageVersionId::new("https://crates.io".into(), name.into(), version),
            from_registry: true,
            root: String::new(),
            has_custom_build: false,
        },
        details: details(name, trust),
    }
}

#[test]
fn required_details_follow_the_columns() {
    let none = RequiredDetails::none();
    assert!(!none.geiger && !none.owners && !none.downloads && !none.loc);
    let mut columns = CrateVerifyColumns::default();
    columns.show_leftpad_index = Some(Some(true));
    let r = RequiredDetails::for_args(&verify_args(columns, true, false));
    assert_eq!(r, RequiredDetails { geiger: false, owners: true, downloads: true, loc: true });
    let r = RequiredDetails::for_args(&verify_args(all_columns(), false, false));
    assert_eq!(r, RequiredDetails { geiger: true, owners: true, downloads: true, loc: true });
    let r = RequiredDetails::for_args(&verify_args(CrateVerifyColumns::default(), false, false));
    assert_eq!(r, RequiredDetails::none());
}

#[test]
fn listing_skips() {
    let mut s = stats("a", Version::new(1, 0, 0), VerificationStatus::Verified);
    assert!(crate_has_known_owner(&s));
    assert!(crate_is_listed(&s, &verify_args(all_columns(), false, false)));
    assert!(!crate_is_listed(&s, &verify_args(all_columns(), true, false)));
    assert!(!crate_is_listed(&s, &verify_args(all_columns(), false, true)));
    s.details.known_owners = Some(CountWithTotal { count: 0, total: 3 });
    s.details.accumulative.verified = false;
    assert!(!crate_has_known_owner(&s));
    assert!(crate_is_listed(&s, &verify_args(all_columns(), true, true)));
    s.details.known_owners = None;
    assert!(!crate_has_known_owner(&s));
}

fn mismatching_review(digest: Vec<u8>) -> crev::package_review::Package {
    let mut bytes = vec![0u8; 32];
    bytes[0] = 1;
    let from = PublicId::new(
        Id::new_crev(bytes).unwrap(),
        Url::new_git("https://example.com/proofs".into()),
    );
    let info = PackageInfo {
        id: PackageVersionId::new("https://crates.io".into(), "a".into(), Version::new(1, 0, 0)),
        digest,
        digest_type: default_digest_type(),
        revision: String::new(),
        revision_type: default_revision_type(),
    };
    from.create_package_review_proof(info, Review::default(), vec![], String::new()).unwrap()
}

#[test]
fn summary_and_exit_status() {
    let mut deps = vec![
        stats("a", Version::new(1, 0, 0), VerificationStatus::Verified),
        stats("bb", Version::new(10, 0, 0), VerificationStatus::Verified),
    ];
    assert_eq!(verify_summary(&deps), (0, 0, false));
    assert_eq!(verify_exit_status(&deps), CommandExitStatus::Success);
    deps[1].details.accumulative.verified = false;
    deps[0].details.accumulative_own.trusted_issues.count = 1;
    deps[0].details.digest_mismatches.push(mismatching_review(vec![7; 3]));
    assert_eq!(verify_summary(&deps), (1, 1, true));
    assert_eq!(verify_exit_status(&deps), CommandExitStatus::VerificationFailed);
    assert_eq!(verify_summary(&vec![]), (0, 0, false));
}

#[test]
fn digest_mismatch_notices() {
    assert_eq!(
        mismatch_notice(1),
        "1 local crate with digest mismatch detected. Use `cargo crev crate clean [<name>]` to clean any potential unclean local copies. If problem persists, contact the reporter.\n"
    );
    assert!(mismatch_notice(3).starts_with("3 local crates with"));
}

#[test]
fn digest_mismatch_report() {
    let mut deps = vec![
        stats("a", Version::new(1, 0, 0), VerificationStatus::Verified),
        stats("longname", Version::new(10, 20, 30), VerificationStatus::Verified),
    ];
    assert!(mismatch_report(&deps).is_empty());
    deps[0].details.digest = Some(Digest::from([0u8; 32]));
    deps[0].details.digest_mismatches.push(mismatching_review(vec![7; 3]));
    deps[0].details.digest_mismatches.push(mismatching_review(vec![255; 32]));
    let id = Id::new_crev({
        let mut b = vec![0u8; 32];
        b[0] = 1;
        b
    })
    .unwrap()
    .to_string();
    let report = mismatch_report(&deps);
    // only `a` has mismatches, so the columns are as wide as its name and version
    assert_eq!(
        report,
        vec![
            format!(
                "Crate a 1.0.0; local digest: AAAAAAAAAAAAAAAAAAAAAAAAAAAAAAAAAAAAAAAAAAA != - reported by {} (https://example.com/proofs)\n",
                id
            ),
            format!(
                "Crate a 1.0.0; local digest: AAAAAAAAAAAAAAAAAAAAAAAAAAAAAAAAAAAAAAAAAAA != __________________________________________8 reported by {} (https://example.com/proofs)\n",
                id
            ),
        ]
    );
    deps[1].details.digest_mismatches.push(mismatching_review(vec![0; 32]));
    let report = mismatch_report(&deps);
    assert_eq!(report.len(), 3);
    assert!(report[0].starts_with("Crate a        1.0.0   ; local digest: "));
    assert!(report[2].starts_with("Crate longname 10.20.30; local digest: - != AAAA"));
}

fn reviewer(n: u8) -> PublicId {
    let mut bytes = vec![0u8; 32];
    bytes[0] = n;
    PublicId::new(Id::new_crev(bytes).unwrap(), Url::new_git(format!("https://r{}", n)))
}

#[test]
fn most_active_reviewers_first() {
    let mut deps = vec![
        stats("a", Version::new(1, 0, 0), VerificationStatus::Verified),
        stats("b", Version::new(1, 0, 0), VerificationStatus::Verified),
        stats("c", Version::new(1, 0, 0), VerificationStatus::Verified),
    ];
    deps[0].details.trusted_reviewers = vec![reviewer(1), reviewer(2)];
    deps[1].details.trusted_reviewers = vec![reviewer(2), reviewer(3)];
    deps[2].details.trusted_reviewers = vec![reviewer(3), reviewer(2), reviewer(2)];
    let mvps = crate_mvps(&deps);
    let counts: Vec<(u8, u64)> = mvps.iter().map(|(p, n)| (p.id.to_bytes()[0], *n)).collect();
    // an id listed twice for one crate counts once for it
    assert_eq!(counts, vec![(2, 3), (3, 2), (1, 1)]);
    assert!(crate_mvps(&vec![]).is_empty());
}

#[test]
fn public_ids_compare_by_id_and_url() {
    assert!(reviewer(1).same_as(&reviewer(1)));
    assert!(!reviewer(1).same_as(&reviewer(2)));
    let mut other_url = reviewer(1);
    other_url.url = None;
    assert!(!reviewer(1).same_as(&other_url));
}

#[test]
fn summing_details_groups_either_way() {
    let l = (own("a", VerificationStatus::Verified, &["x"]) + own("b", VerificationStatus::Local, &["y"]))
        + own("c", VerificationStatus::Insufficient, &["x", "z"]);
    let r = own("a", VerificationStatus::Verified, &["x"])
        + (own("b", VerificationStatus::Local, &["y"]) + own("c", VerificationStatus::Insufficient, &["x", "z"]));
    assert_eq!(l.trust, r.trust);
    assert_eq!(l.trust, VerificationStatus::Insufficient);
    assert_eq!(l.loc, r.loc);
    assert_eq!(l.trusted_issues, r.trusted_issues);
    assert_eq!(l.owner_set.to_total_owners(), r.owner_set.to_total_owners());
    assert_eq!(l.owner_set.to_total_distinct_groups(), r.owner_set.to_total_distinct_groups());
}

#[test]
fn crate_details_put_together() {
    let deps = vec![
        own("b", VerificationStatus::Negative, &["bob"]),
        own("c", VerificationStatus::Verified, &["carol"]),
    ];
    let make = |recursive: bool, deps: Vec<AccumulativeCrateDetails>| {
        CrateDetails::new(
            None,
            Some(Version::new(1, 3, 0)),
            vec![],
            CountWithTotal { count: 2, total: 10 },
            Some(DownloadsStats { version: 1500, total: 250000, recent: 700 }),
            Some(CountWithTotal { count: 1, total: 2 }),
            vec![],
            vec![],
            vec![],
            own("a", VerificationStatus::Verified, &["alice"]),
            deps,
            recursive,
        )
    };
    let rec = make(true, vec![
        own("b", VerificationStatus::Negative, &["bob"]),
        own("c", VerificationStatus::Verified, &["carol"]),
    ]);
    assert_eq!(rec.leftpad_idx, 7);
    assert_eq!(rec.accumulative_own.trust, VerificationStatus::Verified);
    assert_eq!(rec.accumulative_recursive.trust, VerificationStatus::Negative);
    assert_eq!(rec.accumulative_recursive.loc, Some(300));
    assert_eq!(rec.accumulative_recursive.owner_set.to_total_owners(), 3);
    assert_eq!(rec.accumulative.trust, VerificationStatus::Negative);
    assert_eq!(rec.accumulative.loc, Some(300));
    let flat = make(false, deps);
    assert_eq!(flat.accumulative.trust, VerificationStatus::Verified);
    assert_eq!(flat.accumulative.loc, Some(100));
    assert_eq!(flat.accumulative.owner_set.to_total_owners(), 1);
    assert_eq!(flat.accumulative_recursive.loc, Some(300));
}

#[test]
fn digest_cleanliness() {
    let d = Digest::from_vec(vec![7u8; 32]).unwrap();
    assert!(crev::verify_output::is_digest_clean(&vec![], &d));
    assert!(!crev::verify_output::is_digest_clean(&vec![mismatching_review(vec![1u8; 32])], &d));
    assert!(crev::verify_output::is_digest_clean(
        &vec![mismatching_review(vec![1u8; 32]), mismatching_review(vec![7u8; 32])],
        &d
    ));
}

fn info(from_registry: bool) -> CrateInfo {
    CrateInfo {
        id: PackageVersionId::new("https://crates.io".into(), "a".into(), Version::new(1, 0, 0)),
        from_registry,
        root: String::new(),
        has_custom_build: false,
    }
}

#[test]
fn crate_source_decisions() {
    assert_eq!(source_ignore_list(&info(true)), vec![".cargo-ok".to_string(), "target".to_string()]);
    assert_eq!(source_ignore_list(&info(false)), vec![".cargo-ok".to_string()]);
    let mut required = RequiredDetails::none();
    required.geiger = true;
    let d = Digest::from_vec(vec![7u8; 32]).unwrap();
    let reg = crate_source(
        &info(true),
        &required,
        Some(d.clone()),
        VerificationStatus::Verified,
        vec![mismatching_review(vec![1u8; 32])],
        Some(12),
    );
    assert!(!reg.is_local_source_code);
    assert_eq!(reg.digest, Some(d.clone()));
    assert_eq!(reg.trust, VerificationStatus::Verified);
    assert!(reg.verified);
    assert_eq!(reg.geiger_count, Some(12));
    assert_eq!(reg.digest_mismatches.len(), 1);
    let local = crate_source(
        &info(false),
        &RequiredDetails::none(),
        Some(d),
        VerificationStatus::Verified,
        vec![mismatching_review(vec![1u8; 32])],
        Some(12),
    );
    assert!(local.is_local_source_code);
    assert_eq!(local.digest, None);
    assert_eq!(local.trust, VerificationStatus::Local);
    assert!(!local.verified);
    assert_eq!(local.geiger_count, None);
    assert!(local.digest_mismatches.is_empty());
    let own = local.own_details(
        true,
        CountWithTotal { count: 0, total: 0 },
        Some(5),
        false,
        false,
        OwnerSetSet::new(pkg("a"), vec![]),
    );
    assert_eq!(own.trust, VerificationStatus::Local);
    assert!(own.is_local_source_code);
    assert_eq!(own.geiger_count, None);
    assert_eq!(own.loc, Some(5));
}
