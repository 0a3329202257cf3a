use crev::cli::{
    cargo_full_ignore_list, cargo_min_ignore_list, diff_args, diff_source_version, ids_from_string,
    is_possibly_broken_pipe_msg,
    known_owners_count_color, pad_left_manually, validate_public_repo_url,
    vcs_info_to_revision_string, CrateSelector, CrateVerifyColumns, UnrelatedOrDependency,
    VcsInfoJson, VcsInfoJsonGit, VerifyOutputColumnWidths, GREEN,
};
use crev::package::PackageVersionId;
use crev::version::Version;
use crev::cli::{goto_mode_target, GotoModeError};

#[test]
fn crate_selector() {
    let s = CrateSelector::new(Some("log".into()), Some(Version::new(1, 0, 0)), false);
    assert_eq!(s.version().unwrap().unwrap().to_string(), "1.0.0");
    assert!(!s.is_empty());
    assert!(s.ensure_name_given().is_ok());
    let both = CrateSelector::from_args(false, Some(Version::new(1, 0, 0)), None, Some(Version::new(2, 0, 0)));
    assert_eq!(
        both.version().err(),
        Some("Can't use both positional (`2.0.0`) and non-positional (`1.0.0`) version argument".to_string())
    );
    assert_eq!(both.ensure_name_given().err(), Some("Crate name argument required!".to_string()));
    let empty = CrateSelector::new(None, None, true);
    assert!(empty.is_empty());
    assert_eq!(empty.version(), Ok(None));
}

#[test]
fn verify_columns() {
    let mut c = CrateVerifyColumns::default();
    assert!(!c.any_selected());
    assert!(c.show_issues() == false && c.show_latest_trusted() == false);
    c.show_all = true;
    assert!(c.any_selected());
    assert!(c.show_reviews() && c.show_loc() && c.show_geiger());
    assert!(!c.show_digest());
    c.show_owners = Some(Some(false));
    assert!(!c.show_owners());
    c.show_flags = Some(None);
    assert!(c.show_flags());
    c.show_downloads = Some(None);
    assert!(!c.show_downloads());
    c.show_digest = Some(Some(true));
    assert!(c.show_digest());
    c.show_leftpad_index = Some(Some(true));
    assert!(c.show_leftpad_index());
}

#[test]
fn small_decisions() {
    assert!(UnrelatedOrDependency::from_unrelated_flag(true).is_unrelated());
    assert!(!UnrelatedOrDependency::from_unrelated_flag(false).is_unrelated());
    assert_eq!(known_owners_count_color(0), None);
    assert_eq!(known_owners_count_color(3), Some(GREEN));
    assert_eq!(pad_left_manually("ab".into(), 4), "ab  ");
    assert_eq!(pad_left_manually("abcdef".into(), 4), "abcdef");
    assert_eq!(pad_left_manually("é".into(), 3), "é ");
    assert!(is_possibly_broken_pipe_msg("failed: Broken pipe (os error 32)"));
    assert!(is_possibly_broken_pipe_msg("os error 32"));
    assert!(!is_possibly_broken_pipe_msg("other"));
    assert!(validate_public_repo_url("https://github.com/a/b").is_ok());
    assert!(validate_public_repo_url("git@github.com:a/b").is_err());
    let full = cargo_full_ignore_list();
    assert_eq!(full, vec![".cargo-ok".to_string(), "target".to_string()]);
    assert_eq!(cargo_min_ignore_list(), vec![".cargo-ok".to_string()]);
    let vcs = VcsInfoJson { git: VcsInfoJsonGit::Sha1("abc".into()) };
    assert_eq!(vcs_info_to_revision_string(Some(vcs)), "abc");
    assert_eq!(vcs_info_to_revision_string(None), "");
}

#[test]
fn ids_from_strings() {
    let good = "FYlr8YoYGVvDwHQxqEIs89reKKDy-oWisoO0qXXEfHE".to_string();
    assert_eq!(ids_from_string(&vec![good.clone(), good.clone()]).unwrap().len(), 2);
    assert_eq!(
        ids_from_string(&vec![good, "AAAA".into()]).err(),
        Some("'AAAA' is not a valid crev Id: wrong length of crev id, expected 32 bytes, got 3".to_string())
    );
}

#[test]
fn column_widths() {
    let w = VerifyOutputColumnWidths::from_pkgsids(&vec![]);
    assert_eq!((w.name, w.version), (5, 7));
    let pkgs = vec![
        PackageVersionId::new("s".into(), "a-long-crate-name".into(), Version::new(1, 2, 3)),
        PackageVersionId::new("s".into(), "x".into(), Version::parse("10.20.30-beta.1").unwrap()),
    ];
    let w = VerifyOutputColumnWidths::from_pkgsids(&pkgs);
    assert_eq!((w.name, w.version), (17, 15));
}

use crev::cli::{
    cargo_registry_to_crev_source_id, commit_anyway_reply, crate_review_activity_check,
    editor_to_use, get_downloads_stats, latest_trusted_version_string, sum_options,
    url_to_status_str, ReviewActivity, ReviewMode, UrlOfId,
};
use crev::proofs::Date;
use crev::url::Url;
use crev::util::CancelledError;

fn at(secs: i64) -> Date {
    Date { timestamp: secs, nanos: 0, offset_seconds: 0 }
}

#[test]
fn review_activity_checks() {
    let v = Version::new(1, 2, 3);
    let base = Version::new(1, 0, 0);
    let now = at(1_000_000);
    let recent_full = ReviewActivity { timestamp: at(1_000_000 - 3600), diff_base: None };
    let recent_diff = ReviewActivity { timestamp: at(1_000_000 - 3600), diff_base: Some(base.clone()) };
    let old_full = ReviewActivity { timestamp: at(1_000_000 - 3 * 86400), diff_base: None };
    assert_eq!(recent_full.to_review_mode(), ReviewMode::Full);
    assert_eq!(recent_diff.to_review_mode(), ReviewMode::Differential);

    assert_eq!(crate_review_activity_check(Some(recent_full.clone()), "log", &v, &None, false, &now), Ok(None));
    let r = crate_review_activity_check(Some(recent_diff.clone()), "log", &v, &Some(None), false, &now).unwrap();
    assert_eq!(r.unwrap().to_string(), "1.0.0");
    assert_eq!(
        crate_review_activity_check(Some(recent_full.clone()), "log", &v, &Some(None), false, &now).err(),
        Some("Last review activity record for log:1.2.3 indicates full review. Are you sure you want to use `--diff` flag? Use `--skip-activity-check` to override.".to_string())
    );
    assert_eq!(
        crate_review_activity_check(Some(recent_diff), "log", &v, &None, false, &now).err(),
        Some("Last review activity record for log:1.2.3 indicates differential review. Use `--diff` flag? Use `--skip-activity-check` to override.".to_string())
    );
    assert_eq!(
        crate_review_activity_check(Some(old_full.clone()), "log", &v, &None, false, &now).err(),
        Some("Last review activity record for log:1.2.3 is too old. Re-review or use `--skip-activity-check` to override.".to_string())
    );
    assert_eq!(crate_review_activity_check(Some(old_full), "log", &v, &None, true, &now), Ok(None));
    assert_eq!(
        crate_review_activity_check(None, "log", &v, &None, false, &now).err(),
        Some("No review activity record for log:1.2.3 found. Make sure you have reviewed the code in this version before creating review proof. Use `--skip-activity-check` to override.".to_string())
    );
    assert_eq!(
        crate_review_activity_check(None, "log", &v, &Some(None), true, &now).err(),
        Some("No previous review activity to determine base version".to_string())
    );
    let given = crate_review_activity_check(None, "log", &v, &Some(Some(base)), true, &now).unwrap();
    assert_eq!(given.unwrap().to_string(), "1.0.0");
}

#[test]
fn latest_trusted_versions() {
    let v = Version::new(1, 2, 3);
    assert_eq!(latest_trusted_version_string(&v, &None), "");
    assert_eq!(latest_trusted_version_string(&v, &Some(Version::new(1, 2, 3))), "=");
    assert_eq!(latest_trusted_version_string(&v, &Some(Version::new(1, 3, 0))), "↑1.3.0");
    assert_eq!(latest_trusted_version_string(&v, &Some(Version::new(0, 9, 0))), "↓0.9.0");
}

#[test]
fn small_command_line_helpers() {
    assert_eq!(
        cargo_registry_to_crev_source_id("registry+https://github.com/rust-lang/crates.io-index"),
        "https://crates.io"
    );
    assert_eq!(cargo_registry_to_crev_source_id("git+https://x"), "git+https://x");
    let versions = vec![("1.0.0".to_string(), 10), ("1.2.3".to_string(), 7), ("1.2.3".to_string(), 9)];
    assert_eq!(get_downloads_stats(&versions, 100, &Version::new(1, 2, 3)), (7, 100));
    assert_eq!(get_downloads_stats(&versions, 100, &Version::new(2, 0, 0)), (0, 100));
    assert_eq!(editor_to_use(None, Some("nano".into()), Some("emacs".into())), "nano");
    assert_eq!(editor_to_use(None, None, None), "vi");
    assert_eq!(editor_to_use(Some("code".into()), None, None), "code");
    assert_eq!(commit_anyway_reply("Y"), Some(Ok(())));
    assert_eq!(commit_anyway_reply("q"), Some(Err(CancelledError::ByUser)));
    assert_eq!(commit_anyway_reply(""), None);
    let u = Url::new_git("https://u".into());
    assert_eq!(url_to_status_str(&UrlOfId::FromSelfVerified(&u)), ("==", "https://u"));
    assert_eq!(url_to_status_str(&UrlOfId::FromOthers(&u)), ("??", "https://u"));
    assert_eq!(url_to_status_str(&UrlOfId::NoUrl), ("", ""));
    assert_eq!(sum_options(Some(2), Some(3)), Some(5));
    assert_eq!(sum_options(None, Some(3)), None);
}

use crev::cli::{open_cmd, parse_known_owners};

#[test]
fn known_owners_lists() {
    let owners = parse_known_owners("# comment\n  alice \nbob\n#x\nalice\n");
    assert_eq!(owners, vec!["alice".to_string(), "bob".to_string()]);
    let with_blank = parse_known_owners("a\n\n");
    assert_eq!(with_blank, vec!["a".to_string(), "".to_string()]);
}

#[test]
fn open_commands() {
    assert_eq!(open_cmd(Some("code".into()), "linux"), "code");
    assert_eq!(open_cmd(None, "windows"), "start");
    assert_eq!(open_cmd(None, "macos"), "open");
    assert_eq!(open_cmd(None, "linux"), "xdg-open");
    assert_eq!(open_cmd(None, "freebsd"), "xdg-open");
}

#[test]
fn diff_versions_and_args() {
    let v1 = Version::new(1, 0, 0);
    let v2 = Version::new(2, 0, 0);
    assert_eq!(diff_source_version(Some(v1.clone()), Some(v2.clone())).unwrap(), v1);
    assert_eq!(diff_source_version(None, Some(v2.clone())).unwrap(), v2);
    assert_eq!(
        diff_source_version(None, None).err(),
        Some("No previously reviewed version found".to_string())
    );
    let args = diff_args("/a".to_string(), "/b".to_string(), &vec!["-u".to_string()]);
    assert_eq!(args, vec!["-r", "-N", "/a", "/b", "-u"]);
}

#[test]
fn public_repo_url_error_text() {
    assert_eq!(
        validate_public_repo_url("http://github.com/a/b").err(),
        Some(
            "Proof repositories are for sharing reviews publicly, therefore they must be 'https://' git URLs\nIf you need to use a different URL for pushing to the repository, you may change it later with\n\n        cargo crev repo git remote set-url --push origin <url>"
                .to_string()
        )
    );
}

#[test]
fn goto_mode_outside_a_goto_shell() {
    let s = CrateSelector::new(Some("log".into()), Some(Version::new(0, 4, 1)), true);
    let t = goto_mode_target(false, &s, Some("other".into()), Some("9.9.9".into())).unwrap();
    assert_eq!(t.name, "log");
    assert_eq!(t.version.unwrap().to_string(), "0.4.1");
    assert_eq!(t.unrelated, UnrelatedOrDependency::Unrelated);
    let dep = CrateSelector::new(Some("log".into()), None, false);
    let t = goto_mode_target(false, &dep, None, None).unwrap();
    assert!(t.version.is_none());
    assert_eq!(t.unrelated, UnrelatedOrDependency::Dependency);
    let unnamed = CrateSelector::new(None, None, false);
    let e = goto_mode_target(false, &unnamed, None, None).unwrap_err();
    assert!(matches!(e, GotoModeError::NameRequired));
    assert_eq!(e.message(), Some("Crate name required".to_string()));
}

#[test]
fn goto_mode_inside_a_goto_shell() {
    let unnamed = CrateSelector::new(None, None, false);
    let t = goto_mode_target(true, &unnamed, Some("serde".into()), Some("1.0.2".into())).unwrap();
    assert_eq!(t.name, "serde");
    assert_eq!(t.version.unwrap().to_string(), "1.0.2");
    assert_eq!(t.unrelated, UnrelatedOrDependency::Unrelated);

    let named = CrateSelector::new(Some("log".into()), None, false);
    let e = goto_mode_target(true, &named, Some("serde".into()), Some("1.0.2".into())).unwrap_err();
    assert_eq!(e.message(), Some("In `crev goto` mode no arguments can be given".to_string()));
    let e = goto_mode_target(true, &unnamed, None, Some("1.0.2".into())).unwrap_err();
    assert_eq!(e.message(), Some("crate name env var not found".to_string()));
    let e = goto_mode_target(true, &unnamed, Some("serde".into()), None).unwrap_err();
    assert_eq!(e.message(), Some("crate version env var not found".to_string()));
    let e = goto_mode_target(true, &unnamed, Some("serde".into()), Some("one".into())).unwrap_err();
    assert!(matches!(&e, GotoModeError::InvalidVersion(t) if t == "one"));
    assert_eq!(e.message(), None);
}

#[test]
fn equal_versions_are_not_less() {
    let a = Version::new(1, 2, 3);
    let b = Version::new(1, 2, 3);
    assert!(!a.lt(&b));
    assert!(Version::new(1, 2, 2).lt(&a));
}
