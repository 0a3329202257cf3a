use crev::crate_stats::{CountWithTotal, DownloadsStats, OwnerSetSet};
use crev::package::PackageVersionId;
use crev::version::Version;

fn pkg(name: &str) -> PackageVersionId {
    PackageVersionId::new("https://crates.io".into(), name.into(), Version::new(1, 0, 0))
}

fn names(v: &[&str]) -> Vec<String> {
    v.iter().map(|s| s.to_string()).collect()
}

#[test]
fn owner_totals() {
    let a = OwnerSetSet::new(pkg("a"), names(&["alice", "bob", "alice"]));
    assert_eq!(a.to_total_owners(), 2);
    assert_eq!(a.to_total_distinct_groups(), 1);
    let b = OwnerSetSet::new(pkg("b"), names(&["bob"]));
    let c = OwnerSetSet::new(pkg("c"), names(&["carol"]));
    let all = a + b + c;
    assert_eq!(all.to_total_owners(), 3);
    // `b`'s owners are all owners of `a` too
    assert_eq!(all.to_total_distinct_groups(), 2);
}

#[test]
fn equal_owner_groups_hold_each_other() {
    let a = OwnerSetSet::new(pkg("a"), names(&["x", "y"]));
    let b = OwnerSetSet::new(pkg("b"), names(&["y", "x"]));
    let ab = a + b;
    assert_eq!(ab.to_total_owners(), 2);
    assert_eq!(ab.to_total_distinct_groups(), 0);
}

#[test]
fn adding_owner_sets_prefers_the_right() {
    let a = OwnerSetSet::new(pkg("a"), names(&["x", "y", "z"]));
    let a2 = OwnerSetSet::new(pkg("a"), names(&["w"]));
    let r = a + a2;
    assert_eq!(r.to_total_owners(), 1);
    assert_eq!(r.to_total_distinct_groups(), 1);
}

#[test]
fn count_sums() {
    let s = CountWithTotal { count: 1, total: 5 } + CountWithTotal { count: 2, total: 3 };
    assert_eq!(s, CountWithTotal { count: 3, total: 8 });
    let d = DownloadsStats { version: 1, total: 2, recent: 3 }
        + DownloadsStats { version: 10, total: 20, recent: 30 };
    assert_eq!(d, DownloadsStats { version: 11, total: 22, recent: 33 });
}
