//! What `cargo crev verify` knows of each crate, and the columns of its row.
use vstd::prelude::*;
use crate::cli::{
    column_shown, latest_trusted_text, spaces, CrateVerifyColumns, VerifyOutputColumnWidths, RED,
    YELLOW,
};
use crate::common::base64_url_nopad;
use crate::crate_stats::{
    accumulate_details, all_names, details_views, fold_details, fold_fits, maximal_groups_upto,
    AccumulativeCrateDetails, CountWithTotal, DetailsView, DownloadsStats, OwnerSetSet, VerificationStatus,
};
use crate::digest::Digest;
use crate::id::{PublicId, PublicIdView};
use crate::package::PackageVersionId;
use crate::package_review::Package;
use crate::text::{decimal, push_decimal, push_str};
use crate::opts::CrateVerify;
use crate::version::{version_text, Version};

verus! {

/// A crate found among the dependencies: its id, whether it comes from a
/// registry (not a local path or a git checkout), where its source lies and
/// whether it has a build script.
#[derive(Debug)]
pub struct CrateInfo {
    pub id: PackageVersionId,
    pub from_registry: bool,
    pub root: String,
    pub has_custom_build: bool,
}

/// What is known of a crate.
#[derive(Debug)]
pub struct CrateDetails {
    pub digest: Option<Digest>,
    pub latest_trusted_version: Option<Version>,
    pub trusted_reviewers: Vec<PublicId>,
    pub version_reviews: CountWithTotal,
    pub downloads: Option<DownloadsStats>,
    pub known_owners: Option<CountWithTotal>,
    pub leftpad_idx: u64,
    pub dependencies: Vec<PackageVersionId>,
    pub rev_dependencies: Vec<PackageVersionId>,
    /// Reviews that report another digest for this version.
    pub digest_mismatches: Vec<Package>,
    /// The crate's own details.
    pub accumulative_own: AccumulativeCrateDetails,
    /// The crate's details with those of all its dependencies.
    pub accumulative_recursive: AccumulativeCrateDetails,
    /// The recursive details in recursive mode, else the own ones.
    pub accumulative: AccumulativeCrateDetails,
}

impl CrateDetails {
    /// What is known of a crate, put together: the crate's own details,
    /// those details with the own details of all its dependencies added in
    /// the order given, the leftpad index from the recent downloads and the
    /// crate's own line count, and as the details shown the recursive ones
    /// in recursive mode, else the own ones.
    pub fn new(
        digest: Option<Digest>,
        latest_trusted_version: Option<Version>,
        trusted_reviewers: Vec<PublicId>,
        version_reviews: CountWithTotal,
        downloads: Option<DownloadsStats>,
        known_owners: Option<CountWithTotal>,
        dependencies: Vec<PackageVersionId>,
        rev_dependencies: Vec<PackageVersionId>,
        digest_mismatches: Vec<Package>,
        accumulative_own: AccumulativeCrateDetails,
        dependencies_own: Vec<AccumulativeCrateDetails>,
        recursive: bool,
    ) -> (r: CrateDetails)
        requires
            fold_fits(accumulative_own@, details_views(dependencies_own@)),
        ensures
            r.digest == digest,
            r.latest_trusted_version == latest_trusted_version,
            r.trusted_reviewers == trusted_reviewers,
            r.version_reviews == version_reviews,
            r.downloads == downloads,
            r.known_owners == known_owners,
            r.dependencies == dependencies,
            r.rev_dependencies == rev_dependencies,
            r.digest_mismatches == digest_mismatches,
            r.leftpad_idx == leftpad_of(downloads, accumulative_own.loc),
            r.accumulative_own@ == accumulative_own@,
            r.accumulative_recursive@ == fold_details(
                accumulative_own@,
                details_views(dependencies_own@),
            ),
            r.accumulative@ == if recursive {
                r.accumulative_recursive@
            } else {
                accumulative_own@
            },
    {
        let leftpad_idx = leftpad_index(downloads, accumulative_own.loc);
        let accumulative_recursive = accumulate_details(accumulative_own.clone(), dependencies_own);
        let accumulative = if recursive {
            accumulative_recursive.clone()
        } else {
            accumulative_own.clone()
        };
        CrateDetails {
            digest,
            latest_trusted_version,
            trusted_reviewers,
            version_reviews,
            downloads,
            known_owners,
            leftpad_idx,
            dependencies,
            rev_dependencies,
            digest_mismatches,
            accumulative_own,
            accumulative_recursive,
            accumulative,
        }
    }
}

/// Is a crate's digest clean: no review of its version reports a digest,
/// or one of them reports this one?
pub fn is_digest_clean(version_reviews: &Vec<Package>, digest: &Digest) -> (b: bool)
    ensures
        b == (version_reviews@.len() == 0 || exists|i: int|
            0 <= i < version_reviews@.len() && (#[trigger] version_reviews@[i])@.package.3
                == digest@),
{
    let mut i: usize = 0;
    while i < version_reviews.len()
        invariant
            i <= version_reviews@.len(),
            forall|k: int|
                0 <= k < i ==> (#[trigger] version_reviews@[k])@.package.3 != digest@,
        decreases version_reviews@.len() - i,
    {
        let info = version_reviews[i].package_info();
        if crate::id::bytes_match(info.digest.as_slice(), digest.as_slice()) {
            return true;
        }
        i = i + 1;
    }
    version_reviews.len() == 0
}

/// The ignore list a crate's source is digested with: the minimal one for
/// local source code (not from a registry), else the full one.
pub fn source_ignore_list(info: &CrateInfo) -> (r: Vec<String>)
    ensures
        info.from_registry ==> r@.len() == 2 && r@[0]@ == ".cargo-ok"@ && r@[1]@ == "target"@,
        !info.from_registry ==> r@.len() == 1 && r@[0]@ == ".cargo-ok"@,
{
    if info.from_registry {
        crate::cli::cargo_full_ignore_list()
    } else {
        crate::cli::cargo_min_ignore_list()
    }
}

/// What the scan of a crate decides from where its source comes from.
#[derive(Debug)]
pub struct CrateSource {
    pub is_local_source_code: bool,
    pub digest: Option<Digest>,
    pub trust: VerificationStatus,
    pub verified: bool,
    pub geiger_count: Option<u64>,
    pub digest_mismatches: Vec<Package>,
}

/// What the scan of a crate decides of its source. Source code that does
/// not come from a registry is local: it has no digest, its status is
/// `Local` and no review can report another digest for it. A registry
/// crate has the digest of its directory (`dir_digest`), the status the
/// reviews give that digest (`digest_status`) and the reviews that report
/// another digest (`digest_mismatches`). The unsafe-code count (`geiger`)
/// is kept only where it was asked for.
pub fn crate_source(
    info: &CrateInfo,
    required: &RequiredDetails,
    dir_digest: Option<Digest>,
    digest_status: VerificationStatus,
    digest_mismatches: Vec<Package>,
    geiger: Option<u64>,
) -> (r: CrateSource)
    requires
        info.from_registry ==> dir_digest is Some,
    ensures
        r.is_local_source_code == !info.from_registry,
        r.digest is None <==> !info.from_registry,
        info.from_registry ==> r.digest == dir_digest,
        r.trust == if r.digest is None {
            VerificationStatus::Local
        } else {
            digest_status
        },
        r.verified == (r.trust == VerificationStatus::Verified),
        r.digest_mismatches@ == if r.digest is None {
            Seq::<Package>::empty()
        } else {
            digest_mismatches@
        },
        r.geiger_count == if required.geiger {
            geiger
        } else {
            None
        },
{
    let is_local_source_code = !info.from_registry;
    let geiger_count = if required.geiger {
        geiger
    } else {
        None
    };
    let digest = if !is_local_source_code {
        dir_digest
    } else {
        None
    };
    let (trust, digest_mismatches) = match &digest {
        Some(_) => (digest_status, digest_mismatches),
        None => (VerificationStatus::Local, Vec::new()),
    };
    let verified = trust.is_verified();
    CrateSource { is_local_source_code, digest, trust, verified, geiger_count, digest_mismatches }
}

impl CrateSource {
    /// The crate's own details: what the source decided, with the rest of
    /// what is known of the crate.
    pub fn own_details(
        &self,
        has_trusted_ids: bool,
        trusted_issues: CountWithTotal,
        loc: Option<u64>,
        has_custom_build: bool,
        is_unmaintained: bool,
        owner_set: OwnerSetSet,
    ) -> (r: AccumulativeCrateDetails)
        ensures
            r.trust == self.trust,
            r.verified == self.verified,
            r.geiger_count == self.geiger_count,
            r.is_local_source_code == self.is_local_source_code,
            r.has_trusted_ids == has_trusted_ids,
            r.trusted_issues == trusted_issues,
            r.loc == loc,
            r.has_custom_build == has_custom_build,
            r.is_unmaintained == is_unmaintained,
            r.owner_set == owner_set,
    {
        AccumulativeCrateDetails {
            has_trusted_ids,
            trust: self.trust,
            trusted_issues,
            geiger_count: self.geiger_count,
            loc,
            verified: self.verified,
            has_custom_build,
            is_unmaintained,
            owner_set,
            is_local_source_code: self.is_local_source_code,
        }
    }
}

/// A crate and what is known of it.
#[derive(Debug)]
pub struct CrateStats {
    pub info: CrateInfo,
    pub details: CrateDetails,
}

impl CrateStats {
    /// Does a review report another digest for this version?
    pub fn has_digest_mismatch(&self) -> (b: bool)
        ensures
            b == (self.details.digest_mismatches@.len() > 0),
    {
        self.details.digest_mismatches.len() > 0
    }

    pub fn has_custom_build(&self) -> (b: bool)
        ensures
            b == self.details.accumulative.has_custom_build,
    {
        self.details.accumulative.has_custom_build
    }

    pub fn is_unmaintained(&self) -> (b: bool)
        ensures
            b == self.details.accumulative.is_unmaintained,
    {
        self.details.accumulative.is_unmaintained
    }

    pub fn details(&self) -> (d: &CrateDetails)
        ensures
            d == &self.details,
    {
        &self.details
    }
}

/// How many owners are among the known ones (each listed owner counted).
pub open spec fn known_count(owners: Seq<Seq<char>>, known: Seq<Seq<char>>) -> nat
    decreases owners.len(),
{
    if owners.len() == 0 {
        0
    } else {
        known_count(owners.drop_last(), known) + if known.contains(owners.last()) {
            1nat
        } else {
            0nat
        }
    }
}

/// How many of a crate's owners are known: the count of listed owners that
/// are among `known_owners`, of all listed owners.
pub fn known_owners_counts(owners: &Vec<String>, known_owners: &Vec<String>) -> (c: CountWithTotal)
    ensures
        c.total == owners@.len(),
        c.count == known_count(
            crate::crate_stats::names_view(owners@),
            crate::crate_stats::names_view(known_owners@),
        ),
        c.count <= c.total,
{
    let ghost ov = crate::crate_stats::names_view(owners@);
    let ghost kv = crate::crate_stats::names_view(known_owners@);
    let mut count: u64 = 0;
    let mut i: usize = 0;
    while i < owners.len()
        invariant
            i <= owners.len(),
            ov == crate::crate_stats::names_view(owners@),
            kv == crate::crate_stats::names_view(known_owners@),
            count == known_count(ov.take(i as int), kv),
            count <= i,
        decreases owners.len() - i,
    {
        assert(ov.take(i + 1).drop_last() == ov.take(i as int));
        assert(ov.take(i + 1).last() == owners@[i as int]@);
        if crate::crate_stats::contains_name(known_owners, &owners[i]) {
            count = count + 1;
        }
        i = i + 1;
    }
    assert(ov.take(owners.len() as int) == ov);
    CountWithTotal { count, total: owners.len() as u64 }
}

/// The leftpad index of a crate: its recent downloads per line of its own
/// code; 0 where downloads are unknown or the line count is unknown or 0.
pub open spec fn leftpad_of(downloads: Option<DownloadsStats>, own_loc: Option<u64>) -> u64 {
    match (downloads, own_loc) {
        (Some(d), Some(loc)) => if loc == 0 {
            0
        } else {
            (d.recent / loc) as u64
        },
        _ => 0,
    }
}

/// The leftpad index of a crate (see [`leftpad_of`]).
pub fn leftpad_index(downloads: Option<DownloadsStats>, own_loc: Option<u64>) -> (r: u64)
    ensures
        r == leftpad_of(downloads, own_loc),
{
    let loc = match own_loc {
        Some(l) => l,
        None => 0,
    };
    match downloads {
        Some(d) => {
            if loc == 0 {
                0
            } else {
                d.recent / loc
            }
        },
        None => 0,
    }
}

/// The word `cargo crev verify` shows for a status.
pub open spec fn status_text(s: VerificationStatus) -> Seq<char> {
    match s {
        VerificationStatus::Local => "local"@,
        VerificationStatus::Verified => "pass"@,
        VerificationStatus::Insufficient => "none"@,
        VerificationStatus::Negative => "flagged"@,
    }
}

/// The word shown for a status (see [`status_text`]).
pub fn status_word(s: VerificationStatus) -> (r: &'static str)
    ensures
        r@ == status_text(s),
{
    match s {
        VerificationStatus::Local => {
            proof {
                reveal_strlit("local");
            }
            "local"
        },
        VerificationStatus::Verified => {
            proof {
                reveal_strlit("pass");
            }
            "pass"
        },
        VerificationStatus::Insufficient => {
            proof {
                reveal_strlit("none");
            }
            "none"
        },
        VerificationStatus::Negative => {
            proof {
                reveal_strlit("flagged");
            }
            "flagged"
        },
    }
}

/// `s` padded with spaces on the right to `w` characters, as `{:w}` formats
/// a text.
pub open spec fn left_aligned(s: Seq<char>, w: nat) -> Seq<char> {
    if s.len() < w {
        s + spaces((w - s.len()) as nat)
    } else {
        s
    }
}

/// `s` padded with spaces on the left to `w` characters, as `{:>w}` formats
/// it (and `{:w}` a number).
pub open spec fn right_aligned(s: Seq<char>, w: nat) -> Seq<char> {
    if s.len() < w {
        spaces((w - s.len()) as nat) + s
    } else {
        s
    }
}

/// The decimal text of `n`, right-aligned to `w` characters.
pub open spec fn number_text(n: nat, w: nat) -> Seq<char> {
    right_aligned(decimal(n), w)
}

/// A piece of a row and the color it is shown in.
#[derive(Debug)]
pub struct ColoredText {
    pub text: String,
    pub color: Option<u32>,
}

/// The texts and colors of a row.
pub open spec fn colored_view(v: Seq<ColoredText>) -> Seq<(Seq<char>, Option<u32>)> {
    v.map_values(|t: ColoredText| (t.text@, t.color))
}

fn push_spaces(s: &mut String, n: usize)
    ensures
        final(s)@ == old(s)@ + spaces(n as nat),
{
    let mut i: usize = 0;
    while i < n
        invariant
            i <= n,
            s@ == old(s)@ + spaces(i as nat),
        decreases n - i,
    {
        s.push(' ');
        i = i + 1;
        assert(s@ =~= old(s)@ + spaces(i as nat));
    }
}

fn char_count(s: &str) -> (n: usize)
    ensures
        n == s@.len(),
{
    let v = crate::text::chars_of(s);
    v.len()
}

/// Appends `t` padded on the right to `w` characters.
fn push_left_aligned(s: &mut String, t: &str, w: usize)
    ensures
        final(s)@ == old(s)@ + left_aligned(t@, w as nat),
{
    push_str(s, t);
    let n = char_count(t);
    if n < w {
        push_spaces(s, w - n);
    }
    assert(s@ =~= old(s)@ + left_aligned(t@, w as nat));
}

/// Appends `t` padded on the left to `w` characters.
fn push_right_aligned(s: &mut String, t: &str, w: usize)
    ensures
        final(s)@ == old(s)@ + right_aligned(t@, w as nat),
{
    let n = char_count(t);
    if n < w {
        push_spaces(s, w - n);
    }
    push_str(s, t);
    assert(s@ =~= old(s)@ + right_aligned(t@, w as nat));
}

/// Appends the decimal text of `n` right-aligned to `w` characters.
fn push_number(s: &mut String, n: u64, w: usize)
    ensures
        final(s)@ == old(s)@ + number_text(n as nat, w as nat),
{
    let mut d = String::new();
    push_decimal(&mut d, n);
    assert(d@ =~= decimal(n as nat));
    push_right_aligned(s, d.as_str(), w);
}

fn text_of(t: &str) -> (s: String)
    ensures
        s@ == t@,
{
    let mut s = String::new();
    push_str(&mut s, t);
    assert(s@ =~= t@);
    s
}

/// The color of a status: green where verified or local, yellow where
/// negative.
pub open spec fn status_color(s: VerificationStatus) -> Option<u32> {
    match s {
        VerificationStatus::Verified | VerificationStatus::Local => Some(crate::cli::GREEN),
        VerificationStatus::Insufficient => None,
        VerificationStatus::Negative => Some(YELLOW),
    }
}

/// The status column: `local` for local code, `N/A` where no id is trusted
/// and nothing is verified, else the status in its color.
pub open spec fn trust_column(a: DetailsView) -> (Seq<char>, Option<u32>) {
    if a.is_local_source_code {
        (left_aligned("local"@, 6) + " "@, None)
    } else if !a.has_trusted_ids && a.trust == VerificationStatus::Insufficient {
        (left_aligned("N/A"@, 6) + " "@, None)
    } else {
        (left_aligned(status_text(a.trust), 6) + " "@, status_color(a.trust))
    }
}

/// One piece of a row, or none where the column is hidden.
pub open spec fn shown(
    b: bool,
    pieces: Seq<(Seq<char>, Option<u32>)>,
) -> Seq<(Seq<char>, Option<u32>)> {
    if b {
        pieces
    } else {
        Seq::empty()
    }
}

/// The reviews column: reviews of this version and of the crate.
pub open spec fn reviews_column(c: CountWithTotal) -> Seq<(Seq<char>, Option<u32>)> {
    seq![
        (number_text(c.count as nat, 3) + " "@ + number_text(c.total as nat, 3) + " "@, None),
    ]
}

/// The issues column: open issues reported by trusted ids (red where there
/// are any) and by anyone (yellow where there are any).
pub open spec fn issues_column(c: CountWithTotal) -> Seq<(Seq<char>, Option<u32>)> {
    seq![
        (number_text(c.count as nat, 2) + " "@, if c.count > 0 { Some(RED) } else { None }),
        (number_text(c.total as nat, 3) + " "@, if c.total > 0 { Some(YELLOW) } else { None }),
    ]
}

/// The owners column: in recursive mode the number of owners and of owner
/// groups of the crate and its dependencies; else the known owners of all
/// owners, `?` where the owners are unknown.
pub open spec fn owners_column(d: CrateDetails, recursive_mode: bool) -> Seq<
    (Seq<char>, Option<u32>),
> {
    if recursive_mode {
        let gs = d.accumulative.owner_set@;
        seq![
            (number_text(all_names(gs).to_set().len(), 2) + " "@ + number_text(
                maximal_groups_upto(gs, gs.len() as int),
                2,
            ) + " "@, None),
        ]
    } else {
        match d.known_owners {
            Some(k) => seq![
                (number_text(k.count as nat, 2) + " "@, if k.count > 0 {
                    Some(crate::cli::GREEN)
                } else {
                    None
                }),
                (number_text(k.total as nat, 2) + " "@, None),
            ],
            None => seq![
                (right_aligned("?"@, 2) + " "@, None),
                (right_aligned("?"@, 2) + " "@, None),
            ],
        }
    }
}

/// The downloads column: thousands of downloads of this version (yellow
/// under 2000 downloads) and of the crate (yellow under 20000), `?` where
/// unknown.
pub open spec fn downloads_column(d: Option<DownloadsStats>) -> Seq<(Seq<char>, Option<u32>)> {
    match d {
        Some(s) => seq![
            (number_text((s.version / 1000) as nat, 5) + "K "@, if s.version < 2000 {
                Some(YELLOW)
            } else {
                None
            }),
            (number_text((s.total / 1000) as nat, 6) + "K "@, if s.total < 20000 {
                Some(YELLOW)
            } else {
                None
            }),
        ],
        None => seq![(right_aligned("?"@, 8) + " "@ + right_aligned("?"@, 9) + " "@, None)],
    }
}

/// The lines of code column, `err` where they could not be counted.
pub open spec fn loc_column(loc: Option<int>) -> Seq<(Seq<char>, Option<u32>)> {
    match loc {
        Some(l) => seq![(number_text(l as nat, 6) + " "@, None)],
        None => seq![(right_aligned("err"@, 6) + " "@, None)],
    }
}

/// The detail columns of a crate's row, in order, each shown where asked
/// for; `leftpad_root` is the rounded square root of the leftpad index.
#[verifier::opaque]
pub open spec fn details_row(
    d: CrateDetails,
    columns: CrateVerifyColumns,
    recursive_mode: bool,
    leftpad_root: u64,
) -> Seq<(Seq<char>, Option<u32>)> {
    seq![trust_column(d.accumulative@)] + shown(
        column_shown(columns.show_reviews, columns.show_all, false),
        reviews_column(d.version_reviews),
    ) + shown(column_shown(columns.show_issues, columns.show_all, true), issues_column(d.accumulative.trusted_issues))
        + shown(
        column_shown(columns.show_owners, columns.show_all, false),
        owners_column(d, recursive_mode),
    ) + shown(
        column_shown(columns.show_downloads, columns.show_all, false),
        downloads_column(d.downloads),
    ) + shown(
        column_shown(columns.show_loc, columns.show_all, false),
        loc_column(d.accumulative@.loc),
    ) + shown(
        column_shown(columns.show_leftpad_index, columns.show_all, false),
        seq![(number_text(leftpad_root as nat, 5) + " "@, None)],
    )
}

fn piece(t: String, color: Option<u32>) -> (r: Vec<ColoredText>)
    ensures
        colored_view(r@) == seq![(t@, color)],
{
    let mut r: Vec<ColoredText> = Vec::new();
    r.push(ColoredText { text: t, color });
    assert(colored_view(r@) =~= seq![(t@, color)]);
    r
}

fn two_pieces(t1: String, c1: Option<u32>, t2: String, c2: Option<u32>) -> (r: Vec<ColoredText>)
    ensures
        colored_view(r@) == seq![(t1@, c1), (t2@, c2)],
{
    let mut r: Vec<ColoredText> = Vec::new();
    r.push(ColoredText { text: t1, color: c1 });
    r.push(ColoredText { text: t2, color: c2 });
    assert(colored_view(r@) =~= seq![(t1@, c1), (t2@, c2)]);
    r
}

/// Appends the pieces of `p` to `r`, where `show` holds.
fn append_shown(r: &mut Vec<ColoredText>, show: bool, p: Vec<ColoredText>)
    ensures
        colored_view(final(r)@) == colored_view(old(r)@) + shown(show, colored_view(p@)),
{
    if show {
        let mut p = p;
        let ghost before = r@;
        let ghost added = p@;
        r.append(&mut p);
        assert(r@ == before + added);
        assert(colored_view(r@) =~= colored_view(before) + colored_view(added));
    } else {
        assert(colored_view(r@) =~= colored_view(r@) + shown(show, colored_view(p@)));
    }
}

fn trust_piece(a: &AccumulativeCrateDetails) -> (r: Vec<ColoredText>)
    ensures
        colored_view(r@) == seq![trust_column(a@)],
{
    let mut t = String::new();
    proof {
        reveal_strlit(" ");
    }
    if a.is_local_source_code {
        proof {
            reveal_strlit("local");
        }
        push_left_aligned(&mut t, "local", 6);
        push_str(&mut t, " ");
        piece(t, None)
    } else if !a.has_trusted_ids && a.trust == VerificationStatus::Insufficient {
        proof {
            reveal_strlit("N/A");
        }
        push_left_aligned(&mut t, "N/A", 6);
        push_str(&mut t, " ");
        piece(t, None)
    } else {
        push_left_aligned(&mut t, status_word(a.trust), 6);
        push_str(&mut t, " ");
        piece(t, crate::cli::verification_status_color(a.trust))
    }
}

fn reviews_pieces(c: CountWithTotal) -> (r: Vec<ColoredText>)
    ensures
        colored_view(r@) == reviews_column(c),
{
    proof {
        reveal_strlit(" ");
    }
    let mut t = String::new();
    push_number(&mut t, c.count, 3);
    push_str(&mut t, " ");
    push_number(&mut t, c.total, 3);
    push_str(&mut t, " ");
    piece(t, None)
}

fn issues_pieces(c: CountWithTotal) -> (r: Vec<ColoredText>)
    ensures
        colored_view(r@) == issues_column(c),
{
    proof {
        reveal_strlit(" ");
    }
    let mut t1 = String::new();
    push_number(&mut t1, c.count, 2);
    push_str(&mut t1, " ");
    let mut t2 = String::new();
    push_number(&mut t2, c.total, 3);
    push_str(&mut t2, " ");
    two_pieces(
        t1,
        if c.count > 0 {
            Some(RED)
        } else {
            None
        },
        t2,
        if c.total > 0 {
            Some(YELLOW)
        } else {
            None
        },
    )
}

fn owners_pieces(d: &CrateDetails, recursive_mode: bool) -> (r: Vec<ColoredText>)
    ensures
        colored_view(r@) == owners_column(*d, recursive_mode),
{
    proof {
        reveal_strlit(" ");
        reveal_strlit("?");
    }
    if recursive_mode {
        let owners = d.accumulative.owner_set.to_total_owners() as u64;
        let groups = d.accumulative.owner_set.to_total_distinct_groups() as u64;
        let mut t = String::new();
        push_number(&mut t, owners, 2);
        push_str(&mut t, " ");
        push_number(&mut t, groups, 2);
        push_str(&mut t, " ");
        piece(t, None)
    } else {
        match d.known_owners {
            Some(k) => {
                let mut t1 = String::new();
                push_number(&mut t1, k.count, 2);
                push_str(&mut t1, " ");
                let mut t2 = String::new();
                push_number(&mut t2, k.total, 2);
                push_str(&mut t2, " ");
                two_pieces(t1, crate::cli::known_owners_count_color(k.count), t2, None)
            },
            None => {
                let mut t1 = String::new();
                push_right_aligned(&mut t1, "?", 2);
                push_str(&mut t1, " ");
                let mut t2 = String::new();
                push_right_aligned(&mut t2, "?", 2);
                push_str(&mut t2, " ");
                two_pieces(t1, crate::cli::known_owners_count_color(0), t2, None)
            },
        }
    }
}

fn downloads_pieces(d: Option<DownloadsStats>) -> (r: Vec<ColoredText>)
    ensures
        colored_view(r@) == downloads_column(d),
{
    proof {
        reveal_strlit(" ");
        reveal_strlit("?");
        reveal_strlit("K ");
    }
    match d {
        Some(s) => {
            let mut t1 = String::new();
            push_number(&mut t1, s.version / 1000, 5);
            push_str(&mut t1, "K ");
            let mut t2 = String::new();
            push_number(&mut t2, s.total / 1000, 6);
            push_str(&mut t2, "K ");
            two_pieces(
                t1,
                if s.version < 2000 {
                    Some(YELLOW)
                } else {
                    None
                },
                t2,
                if s.total < 20000 {
                    Some(YELLOW)
                } else {
                    None
                },
            )
        },
        None => {
            let mut t = String::new();
            push_right_aligned(&mut t, "?", 8);
            push_str(&mut t, " ");
            push_right_aligned(&mut t, "?", 9);
            push_str(&mut t, " ");
            piece(t, None)
        },
    }
}

fn loc_pieces(loc: Option<u64>) -> (r: Vec<ColoredText>)
    ensures
        colored_view(r@) == loc_column(crate::crate_stats::opt_int(loc)),
{
    proof {
        reveal_strlit(" ");
        reveal_strlit("err");
    }
    let mut t = String::new();
    match loc {
        Some(l) => push_number(&mut t, l, 6),
        None => push_right_aligned(&mut t, "err", 6),
    }
    push_str(&mut t, " ");
    piece(t, None)
}

fn leftpad_pieces(leftpad_root: u64) -> (r: Vec<ColoredText>)
    ensures
        colored_view(r@) == seq![(number_text(leftpad_root as nat, 5) + " "@, None::<u32>)],
{
    proof {
        reveal_strlit(" ");
    }
    let mut t = String::new();
    push_number(&mut t, leftpad_root, 5);
    push_str(&mut t, " ");
    piece(t, None)
}

/// The detail columns of a crate's row in `cargo crev verify` (see
/// [`details_row`]).
pub fn write_details(
    cdep: &CrateDetails,
    columns: &CrateVerifyColumns,
    recursive_mode: bool,
    leftpad_root: u64,
) -> (r: Vec<ColoredText>)
    ensures
        colored_view(r@) == details_row(*cdep, *columns, recursive_mode, leftpad_root),
{
    proof {
        reveal(details_row);
    }
    let mut r = trust_piece(&cdep.accumulative);
    append_shown(&mut r, columns.show_reviews(), reviews_pieces(cdep.version_reviews));
    append_shown(&mut r, columns.show_issues(), issues_pieces(cdep.accumulative.trusted_issues));
    append_shown(&mut r, columns.show_owners(), owners_pieces(cdep, recursive_mode));
    append_shown(&mut r, columns.show_downloads(), downloads_pieces(cdep.downloads));
    append_shown(&mut r, columns.show_loc(), loc_pieces(cdep.accumulative.loc));
    append_shown(&mut r, columns.show_leftpad_index(), leftpad_pieces(leftpad_root));
    r
}

/// The header of `cargo crev verify`: the title of each column shown, and a
/// line ending.
pub open spec fn header_text(columns: CrateVerifyColumns, widths: VerifyOutputColumnWidths) -> Seq<
    char,
> {
    let all = columns.show_all;
    right_aligned("status"@, 6) + " "@ + (if column_shown(columns.show_reviews, all, false) {
        right_aligned("reviews"@, 7) + " "@
    } else {
        Seq::empty()
    }) + (if column_shown(columns.show_issues, all, true) {
        right_aligned("issues"@, 6) + " "@
    } else {
        Seq::empty()
    }) + (if column_shown(columns.show_owners, all, false) {
        right_aligned("owner"@, 5) + " "@
    } else {
        Seq::empty()
    }) + (if column_shown(columns.show_downloads, all, false) {
        right_aligned("downloads"@, 14) + " "@
    } else {
        Seq::empty()
    }) + (if column_shown(columns.show_loc, all, false) {
        right_aligned("loc"@, 6) + " "@
    } else {
        Seq::empty()
    }) + (if column_shown(columns.show_leftpad_index, all, false) {
        right_aligned("lpidx"@, 5) + " "@
    } else {
        Seq::empty()
    }) + (if column_shown(columns.show_geiger, all, false) {
        right_aligned("geiger"@, 6) + " "@
    } else {
        Seq::empty()
    }) + (if column_shown(columns.show_flags, all, true) {
        right_aligned("flgs"@, 4) + " "@
    } else {
        Seq::empty()
    }) + left_aligned("crate"@, widths.name as nat) + " "@ + left_aligned(
        "version"@,
        widths.version as nat,
    ) + " "@ + (if column_shown(columns.show_latest_trusted, all, true) {
        left_aligned("latest_t"@, 12)
    } else {
        Seq::empty()
    }) + (if columns.show_digest == Some(Some(true)) {
        "digest"@
    } else {
        Seq::empty()
    }) + "\n"@
}

/// Appends `t` where `show` holds.
fn push_if(s: &mut String, show: bool, t: &str)
    ensures
        final(s)@ == old(s)@ + (if show {
            t@
        } else {
            Seq::empty()
        }),
{
    if show {
        push_str(s, t);
    } else {
        assert(s@ =~= old(s)@ + Seq::<char>::empty());
    }
}

/// Appends the title `t` right-aligned to `w` and a space, where `show`
/// holds.
fn push_title(s: &mut String, show: bool, t: &str, w: usize)
    ensures
        final(s)@ == old(s)@ + (if show {
            right_aligned(t@, w as nat) + " "@
        } else {
            Seq::empty()
        }),
{
    proof {
        reveal_strlit(" ");
    }
    if show {
        push_right_aligned(s, t, w);
        push_str(s, " ");
        assert(s@ =~= old(s)@ + (right_aligned(t@, w as nat) + " "@));
    } else {
        assert(s@ =~= old(s)@ + Seq::<char>::empty());
    }
}

/// The header of `cargo crev verify` (see [`header_text`]).
pub fn print_header(columns: &CrateVerifyColumns, column_widths: VerifyOutputColumnWidths) -> (s:
    String)
    ensures
        s@ == header_text(*columns, column_widths),
{
    proof {
        reveal_strlit("status");
        reveal_strlit("reviews");
        reveal_strlit("issues");
        reveal_strlit("owner");
        reveal_strlit("downloads");
        reveal_strlit("loc");
        reveal_strlit("lpidx");
        reveal_strlit("geiger");
        reveal_strlit("flgs");
        reveal_strlit("crate");
        reveal_strlit("version");
        reveal_strlit("latest_t");
        reveal_strlit("digest");
        reveal_strlit(" ");
        reveal_strlit("\n");
    }
    let mut s = String::new();
    push_title(&mut s, true, "status", 6);
    let ghost s1 = s@;
    push_title(&mut s, columns.show_reviews(), "reviews", 7);
    push_title(&mut s, columns.show_issues(), "issues", 6);
    push_title(&mut s, columns.show_owners(), "owner", 5);
    push_title(&mut s, columns.show_downloads(), "downloads", 14);
    push_title(&mut s, columns.show_loc(), "loc", 6);
    push_title(&mut s, columns.show_leftpad_index(), "lpidx", 5);
    push_title(&mut s, columns.show_geiger(), "geiger", 6);
    push_title(&mut s, columns.show_flags(), "flgs", 4);
    let ghost s2 = s@;
    push_left_aligned(&mut s, "crate", column_widths.name);
    push_str(&mut s, " ");
    push_left_aligned(&mut s, "version", column_widths.version);
    push_str(&mut s, " ");
    let ghost s3 = s@;
    if columns.show_latest_trusted() {
        push_left_aligned(&mut s, "latest_t", 12);
    }
    let ghost s4 = s@;
    push_if(&mut s, columns.show_digest(), "digest");
    push_str(&mut s, "\n");
    assert(s@ =~= header_text(*columns, column_widths));
    s
}

/// The unsafe count column, `err` where it could not be counted.
pub open spec fn geiger_column(g: Option<int>) -> Seq<(Seq<char>, Option<u32>)> {
    seq![
        (match g {
            Some(g) => number_text(g as nat, 6),
            None => right_aligned("err"@, 6),
        } + " "@, None),
    ]
}

/// The flags column: `CB` in yellow for a custom build, `UM` for an
/// unmaintained crate, `__` where either is not so.
pub open spec fn flags_column(custom_build: bool, unmaintained: bool) -> Seq<
    (Seq<char>, Option<u32>),
> {
    seq![
        if custom_build {
            ("CB"@, Some(YELLOW))
        } else {
            ("__"@, None)
        },
        (if unmaintained {
            "UM"@
        } else {
            "__"@
        }, None),
        (" "@, None),
    ]
}

/// The crate column: its name and version, the version marked `*` where the
/// crate is not from a registry.
pub open spec fn crate_column(info: CrateInfo, widths: VerifyOutputColumnWidths) -> Seq<
    (Seq<char>, Option<u32>),
> {
    seq![
        (left_aligned(info.id@.0.1, widths.name as nat) + " "@ + left_aligned(
            version_text(info.id@.1) + if info.from_registry {
                Seq::empty()
            } else {
                "*"@
            },
            widths.version as nat,
        ) + " "@, None),
    ]
}

/// The latest trusted version column.
pub open spec fn latest_trusted_column(info: CrateInfo, d: CrateDetails) -> Seq<
    (Seq<char>, Option<u32>),
> {
    seq![
        (left_aligned(
            latest_trusted_text(
                info.id@.1,
                match d.latest_trusted_version {
                    Some(l) => Some(l@),
                    None => None,
                },
            ),
            12,
        ), None),
    ]
}

/// The digest column, `-` where there is none.
pub open spec fn digest_column(d: Option<Digest>) -> Seq<(Seq<char>, Option<u32>)> {
    seq![
        (match d {
            Some(g) => base64_url_nopad(g@),
            None => "-"@,
        }, None),
    ]
}

/// The columns of a crate's row after its details: the unsafe count, the
/// flags, the crate and the latest trusted version and the digest, each
/// where shown; then a line ending.
#[verifier::opaque]
pub open spec fn crate_id_row(
    stats: CrateStats,
    columns: CrateVerifyColumns,
    widths: VerifyOutputColumnWidths,
) -> Seq<(Seq<char>, Option<u32>)> {
    let d = stats.details;
    let a = d.accumulative@;
    let all = columns.show_all;
    shown(column_shown(columns.show_geiger, all, false), geiger_column(a.geiger_count)) + shown(
        column_shown(columns.show_flags, all, true),
        flags_column(a.has_custom_build, a.is_unmaintained),
    ) + crate_column(stats.info, widths) + shown(
        column_shown(columns.show_latest_trusted, all, true),
        latest_trusted_column(stats.info, d),
    ) + shown(columns.show_digest == Some(Some(true)), digest_column(d.digest)) + seq![
        ("\n"@, None),
    ]
}

fn geiger_pieces(g: Option<u64>) -> (r: Vec<ColoredText>)
    ensures
        colored_view(r@) == geiger_column(crate::crate_stats::opt_int(g)),
{
    proof {
        reveal_strlit(" ");
        reveal_strlit("err");
    }
    let mut t = String::new();
    match g {
        Some(n) => push_number(&mut t, n, 6),
        None => push_right_aligned(&mut t, "err", 6),
    }
    push_str(&mut t, " ");
    piece(t, None)
}

fn flag_pieces(custom_build: bool, unmaintained: bool) -> (r: Vec<ColoredText>)
    ensures
        colored_view(r@) == flags_column(custom_build, unmaintained),
{
    proof {
        reveal_strlit("CB");
        reveal_strlit("UM");
        reveal_strlit("__");
        reveal_strlit(" ");
    }
    let mut r = if custom_build {
        piece(text_of("CB"), Some(YELLOW))
    } else {
        piece(text_of("__"), None)
    };
    let mut rest = two_pieces(
        if unmaintained {
            text_of("UM")
        } else {
            text_of("__")
        },
        None,
        text_of(" "),
        None,
    );
    let ghost a = r@;
    let ghost b = rest@;
    r.append(&mut rest);
    assert(colored_view(r@) =~= colored_view(a) + colored_view(b));
    r
}

fn crate_id_piece(info: &CrateInfo, widths: VerifyOutputColumnWidths) -> (r: Vec<ColoredText>)
    ensures
        colored_view(r@) == crate_column(*info, widths),
{
    proof {
        reveal_strlit(" ");
        reveal_strlit("*");
    }
    let mut t = String::new();
    push_left_aligned(&mut t, info.id.id.name.as_str(), widths.name);
    push_str(&mut t, " ");
    let mut v = info.id.version.to_string();
    if !info.from_registry {
        push_str(&mut v, "*");
    }
    assert(v@ == version_text(info.id@.1) + if info.from_registry {
        Seq::empty()
    } else {
        "*"@
    });
    push_left_aligned(&mut t, v.as_str(), widths.version);
    push_str(&mut t, " ");
    piece(t, None)
}

fn latest_trusted_piece(info: &CrateInfo, d: &CrateDetails) -> (r: Vec<ColoredText>)
    ensures
        colored_view(r@) == latest_trusted_column(*info, *d),
{
    let l = crate::cli::latest_trusted_version_string(&info.id.version, &d.latest_trusted_version);
    let mut t = String::new();
    push_left_aligned(&mut t, l.as_str(), 12);
    assert(t@ =~= left_aligned(l@, 12));
    piece(t, None)
}

fn digest_piece(d: &Option<Digest>) -> (r: Vec<ColoredText>)
    ensures
        colored_view(r@) == digest_column(*d),
{
    proof {
        reveal_strlit("-");
    }
    match d {
        Some(g) => piece(g.to_string(), None),
        None => piece(text_of("-"), None),
    }
}

proof fn lemma_crate_id_row(
    stats: CrateStats,
    columns: CrateVerifyColumns,
    widths: VerifyOutputColumnWidths,
)
    ensures
        crate_id_row(stats, columns, widths) == shown(
            column_shown(columns.show_geiger, columns.show_all, false),
            geiger_column(stats.details.accumulative@.geiger_count),
        ) + shown(
            column_shown(columns.show_flags, columns.show_all, true),
            flags_column(
                stats.details.accumulative@.has_custom_build,
                stats.details.accumulative@.is_unmaintained,
            ),
        ) + shown(true, crate_column(stats.info, widths)) + shown(
            column_shown(columns.show_latest_trusted, columns.show_all, true),
            latest_trusted_column(stats.info, stats.details),
        ) + shown(columns.show_digest == Some(Some(true)), digest_column(stats.details.digest))
            + shown(true, seq![("\n"@, None::<u32>)]),
{
    reveal(crate_id_row);
}

proof fn lemma_concat_assoc<T>(
    a: Seq<T>,
    b: Seq<T>,
    c: Seq<T>,
    d: Seq<T>,
    e: Seq<T>,
    f: Seq<T>,
    g: Seq<T>,
)
    ensures
        a + b + c + d + e + f + g == a + (b + c + d + e + f + g),
{
    assert(a + b + c + d + e + f + g =~= a + (b + c + d + e + f + g));
}

/// A crate's row in `cargo crev verify`: its details (see
/// [`details_row`]) and the columns after them (see [`crate_id_row`]).
pub fn print_dep(
    stats: &CrateStats,
    columns: &CrateVerifyColumns,
    recursive_mode: bool,
    column_widths: VerifyOutputColumnWidths,
    leftpad_root: u64,
) -> (r: Vec<ColoredText>)
    ensures
        colored_view(r@) == details_row(stats.details, *columns, recursive_mode, leftpad_root)
            + crate_id_row(*stats, *columns, column_widths),
{
    proof {
        reveal_strlit("\n");
    }
    let details = stats.details();
    let mut r = write_details(details, columns, recursive_mode, leftpad_root);
    let ghost first = colored_view(r@);
    let ghost a = details.accumulative@;
    let ghost all = columns.show_all;
    let ghost g = shown(column_shown(columns.show_geiger, all, false), geiger_column(a.geiger_count));
    let ghost f = shown(
        column_shown(columns.show_flags, all, true),
        flags_column(a.has_custom_build, a.is_unmaintained),
    );
    let ghost c = crate_column(stats.info, column_widths);
    let ghost l = shown(
        column_shown(columns.show_latest_trusted, all, true),
        latest_trusted_column(stats.info, stats.details),
    );
    let ghost dg = shown(
        columns.show_digest == Some(Some(true)),
        digest_column(stats.details.digest),
    );
    let ghost nl = seq![("\n"@, None::<u32>)];
    append_shown(&mut r, columns.show_geiger(), geiger_pieces(details.accumulative.geiger_count));
    append_shown(
        &mut r,
        columns.show_flags(),
        flag_pieces(stats.has_custom_build(), stats.is_unmaintained()),
    );
    append_shown(&mut r, true, crate_id_piece(&stats.info, column_widths));
    append_shown(
        &mut r,
        columns.show_latest_trusted(),
        latest_trusted_piece(&stats.info, details),
    );
    append_shown(&mut r, columns.show_digest(), digest_piece(&details.digest));
    append_shown(&mut r, true, piece(text_of("\n"), None));
    proof {
        lemma_crate_id_row(*stats, *columns, column_widths);
        lemma_concat_assoc(first, g, f, shown(true, c), l, dg, shown(true, nl));
    }
    r
}

/// The details the scan of the dependencies has to find out.
#[derive(Debug, Clone, Copy, PartialEq, Eq, Structural)]
pub struct RequiredDetails {
    pub geiger: bool,
    pub owners: bool,
    pub downloads: bool,
    pub loc: bool,
}

impl RequiredDetails {
    /// Nothing beyond what every scan finds.
    pub fn none() -> (r: Self)
        ensures
            r == (RequiredDetails { geiger: false, owners: false, downloads: false, loc: false }),
    {
        RequiredDetails { geiger: false, owners: false, downloads: false, loc: false }
    }

    /// What `crate verify` needs found out: unsafe counts for the geiger
    /// column; owners for the owners column or to skip crates with known
    /// owners; downloads and lines of code for their columns and for the
    /// leftpad index.
    pub fn for_args(args: &CrateVerify) -> (r: Self)
        ensures
            r.geiger == column_shown(args.columns.show_geiger, args.columns.show_all, false),
            r.owners == (column_shown(args.columns.show_owners, args.columns.show_all, false)
                || args.skip_known_owners),
            r.downloads == (column_shown(args.columns.show_downloads, args.columns.show_all, false)
                || column_shown(args.columns.show_leftpad_index, args.columns.show_all, false)),
            r.loc == (column_shown(args.columns.show_loc, args.columns.show_all, false)
                || column_shown(args.columns.show_leftpad_index, args.columns.show_all, false)),
    {
        let columns = &args.columns;
        RequiredDetails {
            geiger: columns.show_geiger(),
            owners: columns.show_owners() || args.skip_known_owners,
            downloads: columns.show_downloads() || columns.show_leftpad_index(),
            loc: columns.show_loc() || columns.show_leftpad_index(),
        }
    }
}

/// Does the crate have an owner among the known ones?
pub fn crate_has_known_owner(stats: &CrateStats) -> (b: bool)
    ensures
        b == (stats.details.known_owners matches Some(k) && k.count > 0),
{
    match stats.details.known_owners {
        Some(k) => k.count > 0,
        None => false,
    }
}

/// Is the crate listed by `cargo crev verify`: not skipped for having a
/// known owner, nor for being verified, where either is asked for?
pub fn crate_is_listed(stats: &CrateStats, args: &CrateVerify) -> (b: bool)
    ensures
        b == ((!args.skip_known_owners || !(stats.details.known_owners matches Some(k) && k.count
            > 0)) && (!args.skip_verified || !stats.details.accumulative.verified)),
{
    (!args.skip_known_owners || !crate_has_known_owner(stats)) && (!args.skip_verified
        || !stats.details.accumulative.verified)
}

/// How many of the crates have a digest mismatch.
pub open spec fn mismatch_count(deps: Seq<CrateStats>) -> nat
    decreases deps.len(),
{
    if deps.len() == 0 {
        0
    } else {
        mismatch_count(deps.drop_last()) + if deps.last().details.digest_mismatches@.len() > 0 {
            1nat
        } else {
            0nat
        }
    }
}

/// How many of the crates are not verified (with their dependencies, in
/// recursive mode).
pub open spec fn unverified_count(deps: Seq<CrateStats>) -> nat
    decreases deps.len(),
{
    if deps.len() == 0 {
        0
    } else {
        unverified_count(deps.drop_last()) + if !deps.last().details.accumulative.verified {
            1nat
        } else {
            0nat
        }
    }
}

proof fn lemma_counts_bounded(deps: Seq<CrateStats>)
    ensures
        mismatch_count(deps) <= deps.len(),
        unverified_count(deps) <= deps.len(),
    decreases deps.len(),
{
    if deps.len() > 0 {
        lemma_counts_bounded(deps.drop_last());
    }
}

/// What the listed crates add up to: how many have a digest mismatch, how
/// many are not verified, whether any has issues reported by trusted ids
/// (its own, not its dependencies').
pub fn verify_summary(deps: &Vec<CrateStats>) -> (r: (usize, usize, bool))
    ensures
        r.0 == mismatch_count(deps@),
        r.1 == unverified_count(deps@),
        r.2 == exists|i: int|
            0 <= i < deps@.len() && (#[trigger] deps@[i]).details.accumulative_own.trusted_issues.count
                > 0,
{
    let mut mismatches: usize = 0;
    let mut unverified: usize = 0;
    let mut with_issues = false;
    let mut i: usize = 0;
    while i < deps.len()
        invariant
            i <= deps.len(),
            mismatches == mismatch_count(deps@.take(i as int)),
            unverified == unverified_count(deps@.take(i as int)),
            with_issues == exists|k: int|
                0 <= k < i && (#[trigger] deps@[k]).details.accumulative_own.trusted_issues.count
                    > 0,
        decreases deps.len() - i,
    {
        proof {
            lemma_counts_bounded(deps@.take(i as int));
        }
        assert(deps@.take(i + 1).drop_last() == deps@.take(i as int));
        let dep = &deps[i];
        if dep.has_digest_mismatch() {
            mismatches = mismatches + 1;
        }
        if !dep.details.accumulative.verified {
            unverified = unverified + 1;
        }
        if dep.details.accumulative_own.trusted_issues.count > 0 {
            with_issues = true;
        }
        i = i + 1;
    }
    assert(deps@.take(deps.len() as int) == deps@);
    (mismatches, unverified, with_issues)
}

proof fn lemma_none_unverified(deps: Seq<CrateStats>)
    ensures
        unverified_count(deps) == 0 <==> forall|i: int|
            0 <= i < deps.len() ==> (#[trigger] deps[i]).details.accumulative.verified,
    decreases deps.len(),
{
    if deps.len() > 0 {
        let p = deps.drop_last();
        lemma_none_unverified(p);
        assert forall|i: int| 0 <= i < p.len() implies #[trigger] p[i] == deps[i] by {}
        if !(forall|i: int| 0 <= i < deps.len() ==> (#[trigger] deps[i]).details.accumulative.verified) {
            let i = choose|i: int| 0 <= i < deps.len() && !(#[trigger] deps[i]).details.accumulative.verified;
            if i < p.len() {
                assert(!p[i].details.accumulative.verified);
            } else {
                assert(deps[i] == deps.last());
            }
        } else {
            assert(deps[deps.len() - 1] == deps.last());
        }
    }
}

/// `cargo crev verify` succeeds exactly where every listed crate is
/// verified.
pub fn verify_exit_status(deps: &Vec<CrateStats>) -> (r: crate::cli::CommandExitStatus)
    ensures
        r == (if unverified_count(deps@) == 0 {
            crate::cli::CommandExitStatus::Success
        } else {
            crate::cli::CommandExitStatus::VerificationFailed
        }),
        r == crate::cli::CommandExitStatus::Success <==> forall|i: int|
            0 <= i < deps@.len() ==> (#[trigger] deps@[i]).details.accumulative.verified,
{
    proof {
        lemma_none_unverified(deps@);
    }
    let (_, unverified, _) = verify_summary(deps);
    if unverified == 0 {
        crate::cli::CommandExitStatus::Success
    } else {
        crate::cli::CommandExitStatus::VerificationFailed
    }
}

/// The notice of digest mismatches: how many crates have one, and what to
/// do about it.
pub open spec fn mismatch_notice_text(n: nat) -> Seq<char> {
    decimal(n) + " local crate"@ + (if n > 1 {
        "s"@
    } else {
        Seq::empty()
    }) + " with digest mismatch detected. Use `cargo crev crate clean [<name>]` to clean any potential unclean local copies. If problem persists, contact the reporter.\n"@
}

/// The notice of digest mismatches (see [`mismatch_notice_text`]).
pub fn mismatch_notice(n: u64) -> (s: String)
    ensures
        s@ == mismatch_notice_text(n as nat),
{
    proof {
        reveal_strlit(" local crate");
        reveal_strlit("s");
        reveal_strlit(
            " with digest mismatch detected. Use `cargo crev crate clean [<name>]` to clean any potential unclean local copies. If problem persists, contact the reporter.\n",
        );
    }
    let mut s = String::new();
    push_decimal(&mut s, n);
    push_str(&mut s, " local crate");
    push_if(&mut s, n > 1, "s");
    push_str(
        &mut s,
        " with digest mismatch detected. Use `cargo crev crate clean [<name>]` to clean any potential unclean local copies. If problem persists, contact the reporter.\n",
    );
    assert(s@ =~= mismatch_notice_text(n as nat));
    s
}

/// The widest name (in bytes) among the crates with a digest mismatch.
pub open spec fn mismatch_name_width(deps: Seq<CrateStats>) -> int
    decreases deps.len(),
{
    if deps.len() == 0 {
        0
    } else {
        let w = mismatch_name_width(deps.drop_last());
        let d = deps.last();
        let l = crate::cli::text_len(d.info.id@.0.1);
        if d.details.digest_mismatches@.len() > 0 && l > w {
            l
        } else {
            w
        }
    }
}

/// The widest version text (in bytes) among the crates with a digest
/// mismatch.
pub open spec fn mismatch_version_width(deps: Seq<CrateStats>) -> int
    decreases deps.len(),
{
    if deps.len() == 0 {
        0
    } else {
        let w = mismatch_version_width(deps.drop_last());
        let d = deps.last();
        let l = crate::cli::text_len(version_text(d.info.id@.1));
        if d.details.digest_mismatches@.len() > 0 && l > w {
            l
        } else {
            w
        }
    }
}

/// A digest of reported bytes as displayed: base64 where they are 32 bytes,
/// else `-`.
pub open spec fn reported_digest_text(b: Seq<u8>) -> Seq<char> {
    if b.len() == 32 {
        base64_url_nopad(b)
    } else {
        "-"@
    }
}

/// The line on one review that reports another digest than the local one.
pub open spec fn mismatch_line(dep: CrateStats, m: Package, wn: nat, wv: nat) -> Seq<char> {
    "Crate "@ + left_aligned(dep.info.id@.0.1, wn) + " "@ + left_aligned(
        version_text(dep.info.id@.1),
        wv,
    ) + "; local digest: "@ + match dep.details.digest {
        Some(g) => base64_url_nopad(g@),
        None => "-"@,
    } + " != "@ + reported_digest_text(m@.package.3) + " reported by "@ + base64_url_nopad(
        m@.common.from.0,
    ) + " ("@ + match m@.common.from.1 {
        Some(u) => u.0,
        None => "(no url)"@,
    } + ")\n"@
}

/// The lines on every review, crate after crate, that reports another
/// digest than the local one.
pub open spec fn mismatch_lines(deps: Seq<CrateStats>, wn: nat, wv: nat) -> Seq<Seq<char>>
    decreases deps.len(),
{
    if deps.len() == 0 {
        Seq::empty()
    } else {
        let d = deps.last();
        mismatch_lines(deps.drop_last(), wn, wv) + d.details.digest_mismatches@.map_values(
            |m: Package| mismatch_line(d, m, wn, wv),
        )
    }
}

/// The ids of the reviews with a digest mismatch can be displayed.
pub open spec fn mismatch_ids_displayable(deps: Seq<CrateStats>) -> bool {
    forall|i: int, j: int|
        0 <= i < deps.len() && 0 <= j < deps[i].details.digest_mismatches@.len() ==> 4 * ((
        #[trigger] deps[i].details.digest_mismatches@[j])@.common.from.0.len() / 3) + 3
            <= usize::MAX
}

fn mismatch_line_of(dep: &CrateStats, m: &Package, wn: usize, wv: usize) -> (s: String)
    requires
        4 * (m@.common.from.0.len() / 3) + 3 <= usize::MAX,
    ensures
        s@ == mismatch_line(*dep, *m, wn as nat, wv as nat),
{
    proof {
        reveal_strlit("Crate ");
        reveal_strlit(" ");
        reveal_strlit("; local digest: ");
        reveal_strlit("-");
        reveal_strlit(" != ");
        reveal_strlit(" reported by ");
        reveal_strlit(" (");
        reveal_strlit(")\n");
    }
    let mut s = String::new();
    push_str(&mut s, "Crate ");
    push_left_aligned(&mut s, dep.info.id.id.name.as_str(), wn);
    push_str(&mut s, " ");
    let v = dep.info.id.version.to_string();
    push_left_aligned(&mut s, v.as_str(), wv);
    push_str(&mut s, "; local digest: ");
    match &dep.details.digest {
        Some(g) => {
            let t = g.to_string();
            push_str(&mut s, t.as_str());
        },
        None => push_str(&mut s, "-"),
    }
    push_str(&mut s, " != ");
    match Digest::from_bytes(m.package_info().digest.as_slice()) {
        Some(g) => {
            let t = g.to_string();
            push_str(&mut s, t.as_str());
        },
        None => push_str(&mut s, "-"),
    }
    push_str(&mut s, " reported by ");
    let from = &m.common().from;
    let id_text = from.id.to_string();
    push_str(&mut s, id_text.as_str());
    push_str(&mut s, " (");
    push_str(&mut s, from.url_display());
    push_str(&mut s, ")\n");
    assert(s@ =~= mismatch_line(*dep, *m, wn as nat, wv as nat));
    s
}

/// The report of digest mismatches that `cargo crev verify` prints in red:
/// the crate columns as wide as the widest name and version among the
/// crates with a mismatch.
pub fn mismatch_report(deps: &Vec<CrateStats>) -> (r: Vec<String>)
    requires
        mismatch_ids_displayable(deps@),
    ensures
        r@.map_values(|l: String| l@) == mismatch_lines(
            deps@,
            mismatch_name_width(deps@) as nat,
            mismatch_version_width(deps@) as nat,
        ),
{
    let mut wn: usize = 0;
    let mut wv: usize = 0;
    let mut i: usize = 0;
    while i < deps.len()
        invariant
            i <= deps.len(),
            wn == mismatch_name_width(deps@.take(i as int)),
            wv == mismatch_version_width(deps@.take(i as int)),
        decreases deps.len() - i,
    {
        assert(deps@.take(i + 1).drop_last() == deps@.take(i as int));
        assert(deps@.take(i + 1).last() == deps@[i as int]);
        let dep = &deps[i];
        if dep.has_digest_mismatch() {
            let ln = dep.info.id.id.name.as_str().as_bytes().len();
            if ln > wn {
                wn = ln;
            }
            let v = dep.info.id.version.to_string();
            let lv = v.as_str().as_bytes().len();
            if lv > wv {
                wv = lv;
            }
        }
        i = i + 1;
    }
    assert(deps@.take(deps.len() as int) == deps@);
    let mut r: Vec<String> = Vec::new();
    let mut i: usize = 0;
    while i < deps.len()
        invariant
            i <= deps.len(),
            wn == mismatch_name_width(deps@),
            wv == mismatch_version_width(deps@),
            mismatch_ids_displayable(deps@),
            r@.map_values(|l: String| l@) == mismatch_lines(
                deps@.take(i as int),
                wn as nat,
                wv as nat,
            ),
        decreases deps.len() - i,
    {
        let dep = &deps[i];
        let ghost before = r@.map_values(|l: String| l@);
        let ghost ms = dep.details.digest_mismatches@;
        let mut j: usize = 0;
        while j < dep.details.digest_mismatches.len()
            invariant
                i < deps.len(),
                dep == &deps@[i as int],
                ms == dep.details.digest_mismatches@,
                j <= ms.len(),
                mismatch_ids_displayable(deps@),
                r@.map_values(|l: String| l@) == before + ms.take(j as int).map_values(
                    |m: Package| mismatch_line(*dep, m, wn as nat, wv as nat),
                ),
            decreases ms.len() - j,
        {
            assert(deps@[i as int].details.digest_mismatches@[j as int] == ms[j as int]);
            let line = mismatch_line_of(dep, &dep.details.digest_mismatches[j], wn, wv);
            let ghost prev = r@;
            r.push(line);
            proof {
                let f = |m: Package| mismatch_line(*dep, m, wn as nat, wv as nat);
                assert(ms.take(j + 1) =~= ms.take(j as int).push(ms[j as int]));
                assert(ms.take(j + 1).map_values(f) =~= ms.take(j as int).map_values(f).push(
                    f(ms[j as int]),
                ));
                assert(r@ == prev.push(line));
                assert(r@.map_values(|l: String| l@) =~= prev.map_values(|l: String| l@).push(
                    line@,
                ));
            }
            j = j + 1;
            assert(r@.map_values(|l: String| l@) =~= before + ms.take(j as int).map_values(
                |m: Package| mismatch_line(*dep, m, wn as nat, wv as nat),
            ));
        }
        assert(ms.take(ms.len() as int) == ms);
        assert(deps@.take(i + 1).drop_last() == deps@.take(i as int));
        assert(deps@.take(i + 1).last() == deps@[i as int]);
        i = i + 1;
    }
    assert(deps@.take(deps.len() as int) == deps@);
    r
}

/// The views of public ids.
pub open spec fn ids_view(v: Seq<PublicId>) -> Seq<PublicIdView> {
    v.map_values(|p: PublicId| p@)
}

/// Does the crate list `p` among the trusted ids that reviewed it?
pub open spec fn lists_reviewer(c: CrateStats, p: PublicIdView) -> bool {
    ids_view(c.details.trusted_reviewers@).contains(p)
}

/// Does any of the crates list `p` among the trusted ids that reviewed it?
pub open spec fn is_reviewer(deps: Seq<CrateStats>, p: PublicIdView) -> bool {
    exists|i: int| 0 <= i < deps.len() && lists_reviewer(#[trigger] deps[i], p)
}

/// How many of the crates list `p` among the trusted ids that reviewed them.
pub open spec fn reviewed_count(deps: Seq<CrateStats>, p: PublicIdView) -> nat
    decreases deps.len(),
{
    if deps.len() == 0 {
        0
    } else {
        reviewed_count(deps.drop_last(), p) + if lists_reviewer(deps.last(), p) {
            1nat
        } else {
            0nat
        }
    }
}

proof fn lemma_reviewed_count(deps: Seq<CrateStats>, p: PublicIdView)
    ensures
        reviewed_count(deps, p) <= deps.len(),
        reviewed_count(deps, p) > 0 <==> exists|i: int|
            0 <= i < deps.len() && lists_reviewer(#[trigger] deps[i], p),
    decreases deps.len(),
{
    if deps.len() > 0 {
        let q = deps.drop_last();
        lemma_reviewed_count(q, p);
        if exists|i: int| 0 <= i < q.len() && lists_reviewer(#[trigger] q[i], p) {
            let i = choose|i: int| 0 <= i < q.len() && lists_reviewer(#[trigger] q[i], p);
            assert(deps[i] == q[i]);
        }
        if exists|i: int| 0 <= i < deps.len() && lists_reviewer(#[trigger] deps[i], p) {
            let i = choose|i: int| 0 <= i < deps.len() && lists_reviewer(#[trigger] deps[i], p);
            if i < q.len() {
                assert(deps[i] == q[i]);
            } else {
                assert(deps[i] == deps.last());
            }
        }
    }
}

fn lists(ids: &Vec<PublicId>, p: &PublicId) -> (b: bool)
    ensures
        b == ids_view(ids@).contains(p@),
{
    let mut i: usize = 0;
    while i < ids.len()
        invariant
            i <= ids.len(),
            forall|k: int| 0 <= k < i ==> (#[trigger] ids_view(ids@)[k]) != p@,
        decreases ids.len() - i,
    {
        if ids[i].same_as(p) {
            assert(ids_view(ids@)[i as int] == p@);
            return true;
        }
        i = i + 1;
    }
    false
}

proof fn lemma_is_reviewer_step(deps: Seq<CrateStats>, i: int, p: PublicIdView)
    requires
        0 <= i < deps.len(),
    ensures
        is_reviewer(deps.take(i + 1), p) <==> (is_reviewer(deps.take(i), p) || lists_reviewer(
            deps[i],
            p,
        )),
{
    let t1 = deps.take(i + 1);
    let t0 = deps.take(i);
    if is_reviewer(t1, p) {
        let k = choose|k: int| 0 <= k < t1.len() && lists_reviewer(#[trigger] t1[k], p);
        if k < i {
            assert(t0[k] == t1[k]);
        }
    }
    if is_reviewer(t0, p) {
        let k = choose|k: int| 0 <= k < t0.len() && lists_reviewer(#[trigger] t0[k], p);
        assert(t1[k] == t0[k]);
    }
    if lists_reviewer(deps[i], p) {
        assert(t1[i] == deps[i]);
    }
}

proof fn lemma_seq_push_contains<A>(s: Seq<A>, x: A, p: A)
    ensures
        s.push(x).contains(p) <==> (s.contains(p) || p == x),
{
    if s.push(x).contains(p) {
        let k = choose|k: int| 0 <= k < s.push(x).len() && #[trigger] s.push(x)[k] == p;
        if k < s.len() {
            assert(s[k] == p);
        }
    }
    if s.contains(p) {
        let k = choose|k: int| 0 <= k < s.len() && #[trigger] s[k] == p;
        assert(s.push(x)[k] == p);
    }
    if p == x {
        assert(s.push(x)[s.len() as int] == p);
    }
}

/// Every trusted id that reviewed one of the crates, each once, in the order of first
/// appearance.
fn distinct_reviewers(deps: &Vec<CrateStats>) -> (r: Vec<PublicId>)
    ensures
        ids_view(r@).no_duplicates(),
        forall|p: PublicIdView|
            #![trigger ids_view(r@).contains(p)]
            #![trigger is_reviewer(deps@, p)]
            ids_view(r@).contains(p) <==> is_reviewer(deps@, p),
{
    let mut r: Vec<PublicId> = Vec::new();
    let mut i: usize = 0;
    while i < deps.len()
        invariant
            i <= deps.len(),
            ids_view(r@).no_duplicates(),
            forall|p: PublicIdView|
                #![trigger ids_view(r@).contains(p)]
                ids_view(r@).contains(p) <==> is_reviewer(deps@.take(i as int), p),
        decreases deps.len() - i,
    {
        let revs = &deps[i].details.trusted_reviewers;
        let mut j: usize = 0;
        while j < revs.len()
            invariant
                i < deps.len(),
                revs == &deps@[i as int].details.trusted_reviewers,
                j <= revs.len(),
                ids_view(r@).no_duplicates(),
                forall|p: PublicIdView|
                    #![trigger ids_view(r@).contains(p)]
                    ids_view(r@).contains(p) <==> (is_reviewer(deps@.take(i as int), p) || ids_view(
                        revs@.take(j as int),
                    ).contains(p)),
            decreases revs.len() - j,
        {
            let ghost before = ids_view(r@);
            let ghost v = revs@[j as int]@;
            let ghost t = ids_view(revs@.take(j as int));
            assert(ids_view(revs@.take(j + 1)) =~= t.push(v));
            if !lists(&r, &revs[j]) {
                r.push(revs[j].clone());
                assert(ids_view(r@) =~= before.push(v));
                assert(ids_view(r@).no_duplicates()) by {
                    assert forall|a: int, b: int|
                        0 <= a < b < ids_view(r@).len() implies ids_view(r@)[a] != ids_view(
                            r@,
                        )[b] by {
                        if b == before.len() {
                            assert(before.contains(before[a]));
                        } else {
                            assert(ids_view(r@)[a] == before[a]);
                            assert(ids_view(r@)[b] == before[b]);
                        }
                    }
                }
                assert forall|p: PublicIdView| #[trigger] ids_view(r@).contains(p) <==> (is_reviewer(
                    deps@.take(i as int),
                    p,
                ) || ids_view(revs@.take(j + 1)).contains(p)) by {
                    lemma_seq_push_contains(before, v, p);
                    lemma_seq_push_contains(t, v, p);
                }
            } else {
                assert forall|p: PublicIdView| #[trigger] ids_view(r@).contains(p) <==> (is_reviewer(
                    deps@.take(i as int),
                    p,
                ) || ids_view(revs@.take(j + 1)).contains(p)) by {
                    lemma_seq_push_contains(t, v, p);
                    assert(before.contains(v));
                }
            }
            j = j + 1;
        }
        assert(revs@.take(revs.len() as int) == revs@);
        assert forall|p: PublicIdView| #[trigger] ids_view(r@).contains(p) <==> is_reviewer(
            deps@.take(i + 1),
            p,
        ) by {
            lemma_is_reviewer_step(deps@, i as int, p);
        }
        i = i + 1;
    }
    assert(deps@.take(deps.len() as int) == deps@);
    r
}

/// How many of the crates list `p` among the trusted ids that reviewed them.
fn count_reviewed(deps: &Vec<CrateStats>, p: &PublicId) -> (n: u64)
    ensures
        n == reviewed_count(deps@, p@),
{
    let mut n: u64 = 0;
    let mut i: usize = 0;
    while i < deps.len()
        invariant
            i <= deps.len(),
            n == reviewed_count(deps@.take(i as int), p@),
        decreases deps.len() - i,
    {
        proof {
            lemma_reviewed_count(deps@.take(i as int), p@);
        }
        assert(deps@.take(i + 1).drop_last() == deps@.take(i as int));
        if lists(&deps[i].details.trusted_reviewers, p) {
            n = n + 1;
        }
        i = i + 1;
    }
    assert(deps@.take(deps.len() as int) == deps@);
    n
}

/// The views of ids with their counts.
pub open spec fn counts_view(v: Seq<(PublicId, u64)>) -> Seq<(PublicIdView, u64)> {
    v.map_values(|e: (PublicId, u64)| (e.0@, e.1))
}

/// No two entries are for the same key.
pub open spec fn distinct_keys<K>(v: Seq<(K, u64)>) -> bool {
    forall|a: int, b: int| 0 <= a < b < v.len() ==> (#[trigger] v[a]).0 != (#[trigger] v[b]).0
}

/// Are the counts in non-increasing order?
pub open spec fn by_count_descending(v: Seq<(PublicIdView, u64)>) -> bool {
    forall|a: int, b: int| 0 <= a < b < v.len() ==> (#[trigger] v[a]).1 >= (#[trigger] v[b]).1
}

/// Inserts `e` after every entry whose count is at least its own.
fn insert_by_count(r: &mut Vec<(PublicId, u64)>, e: (PublicId, u64))
    requires
        by_count_descending(counts_view(old(r)@)),
    ensures
        by_count_descending(counts_view(final(r)@)),
        exists|pos: int|
            0 <= pos <= old(r)@.len() && counts_view(final(r)@) == counts_view(old(r)@).insert(
                pos,
                (e.0@, e.1),
            ),
{
    let ghost old_v = counts_view(r@);
    let ghost x = (e.0@, e.1);
    let mut pos: usize = 0;
    while pos < r.len() && r[pos].1 >= e.1
        invariant
            pos <= r.len(),
            old_v == counts_view(r@),
            forall|k: int| 0 <= k < pos ==> (#[trigger] old_v[k]).1 >= e.1,
        decreases r.len() - pos,
    {
        pos = pos + 1;
    }
    r.insert(pos, e);
    proof {
        old_v.insert_ensures(pos as int, x);
        let nv = counts_view(r@);
        assert(nv =~= old_v.insert(pos as int, x));
        assert forall|a: int, b: int| 0 <= a < b < nv.len() implies (#[trigger] nv[a]).1 >= (
        #[trigger] nv[b]).1 by {
            if b < pos {
                assert(nv[a] == old_v[a] && nv[b] == old_v[b]);
            } else if b == pos {
                assert(nv[a] == old_v[a]);
            } else if a < pos {
                assert(nv[a] == old_v[a] && nv[b] == old_v[b - 1]);
            } else if a == pos {
                assert(nv[b] == old_v[b - 1]);
                assert(pos < old_v.len());
                assert(old_v[pos as int].1 < e.1);
                if b - 1 > pos {
                    assert(old_v[pos as int].1 >= old_v[b - 1].1);
                }
            } else {
                assert(nv[a] == old_v[a - 1] && nv[b] == old_v[b - 1]);
            }
        }
    }
}

/// Every entry of `a` is one of `b`.
pub open spec fn entries_within<T>(a: Seq<T>, b: Seq<T>) -> bool {
    forall|k: int| 0 <= k < a.len() ==> exists|x: int| 0 <= x < b.len() && #[trigger] a[k] == b[x]
}

pub(crate) proof fn lemma_insert_entry<T>(before: Seq<T>, src: Seq<T>, i: int, pos: int)
    requires
        0 <= i < src.len(),
        0 <= pos <= before.len(),
        entries_within(before, src.take(i)),
        entries_within(src.take(i), before),
    ensures
        entries_within(before.insert(pos, src[i]), src.take(i + 1)),
        entries_within(src.take(i + 1), before.insert(pos, src[i])),
{
    let x = src[i];
    let nv = before.insert(pos, x);
    before.insert_ensures(pos, x);
    let s1 = src.take(i + 1);
    let s0 = src.take(i);
    assert forall|k: int| 0 <= k < nv.len() implies exists|y: int|
        0 <= y < s1.len() && #[trigger] nv[k] == s1[y] by {
        if k == pos {
            assert(nv[k] == s1[i]);
        } else {
            let ko = if k < pos {
                k
            } else {
                k - 1
            };
            assert(nv[k] == before[ko]);
            let y = choose|y: int| 0 <= y < s0.len() && #[trigger] before[ko] == s0[y];
            assert(s1[y] == s0[y]);
        }
    }
    assert forall|y: int| 0 <= y < s1.len() implies exists|k: int|
        0 <= k < nv.len() && #[trigger] s1[y] == nv[k] by {
        if y == i {
            assert(nv[pos] == s1[y]);
        } else {
            assert(s1[y] == s0[y]);
            let k = choose|k: int| 0 <= k < before.len() && #[trigger] s0[y] == before[k];
            if k < pos {
                assert(nv[k] == before[k]);
            } else {
                assert(nv[k + 1] == before[k]);
            }
        }
    }
}

proof fn lemma_insert_new_key<K>(before: Seq<(K, u64)>, src: Seq<(K, u64)>, i: int, pos: int)
    requires
        0 <= i < src.len(),
        0 <= pos <= before.len(),
        entries_within(before, src.take(i)),
        distinct_keys(src),
        distinct_keys(before),
    ensures
        distinct_keys(before.insert(pos, src[i])),
{
    let x = src[i];
    let nv = before.insert(pos, x);
    before.insert_ensures(pos, x);
    let s0 = src.take(i);
    assert forall|k: int| 0 <= k < before.len() implies (#[trigger] before[k]).0 != x.0 by {
        let y = choose|y: int| 0 <= y < s0.len() && #[trigger] before[k] == s0[y];
        assert(s0[y] == src[y]);
    }
    assert forall|x1: int, y1: int| 0 <= x1 < y1 < nv.len() implies (#[trigger] nv[x1]).0 != (
    #[trigger] nv[y1]).0 by {
        if x1 == pos {
            assert(nv[y1] == before[y1 - 1]);
        } else if y1 == pos {
            assert(nv[x1] == before[x1]);
        } else {
            let xo = if x1 < pos {
                x1
            } else {
                x1 - 1
            };
            let yo = if y1 < pos {
                y1
            } else {
                y1 - 1
            };
            assert(nv[x1] == before[xo]);
            assert(nv[y1] == before[yo]);
        }
    }
}

/// The entries of `v`, the greatest count first (entries with equal counts
/// in their order in `v`).
fn sort_by_count(v: Vec<(PublicId, u64)>) -> (r: Vec<(PublicId, u64)>)
    requires
        distinct_keys(counts_view(v@)),
    ensures
        by_count_descending(counts_view(r@)),
        distinct_keys(counts_view(r@)),
        entries_within(counts_view(r@), counts_view(v@)),
        entries_within(counts_view(v@), counts_view(r@)),
{
    let ghost src = counts_view(v@);
    let mut r: Vec<(PublicId, u64)> = Vec::new();
    assert(src.take(0) =~= Seq::<(PublicIdView, u64)>::empty());
    for e in it: v.into_iter()
        invariant
            src == counts_view(it.seq()),
            distinct_keys(src),
            by_count_descending(counts_view(r@)),
            distinct_keys(counts_view(r@)),
            entries_within(counts_view(r@), src.take(it.index() as int)),
            entries_within(src.take(it.index() as int), counts_view(r@)),
    {
        let ghost i = it.index() as int;
        let ghost before = counts_view(r@);
        assert(src[i] == (e.0@, e.1));
        insert_by_count(&mut r, e);
        proof {
            let pos = choose|pos: int|
                0 <= pos <= before.len() && counts_view(r@) == before.insert(pos, src[i]);
            lemma_insert_entry(before, src, i, pos);
            lemma_insert_new_key(before, src, i, pos);
        }
    }
    assert(src.take(src.len() as int) == src);
    r
}

/// The trusted ids that reviewed the crates, each once with the number of crates
/// that list it, the most active first.
pub fn crate_mvps(deps: &Vec<CrateStats>) -> (r: Vec<(PublicId, u64)>)
    ensures
        distinct_keys(counts_view(r@)),
        forall|i: int|
            0 <= i < r@.len() ==> (#[trigger] r@[i]).1 == reviewed_count(deps@, r@[i].0@),
        forall|p: PublicIdView|
            #[trigger] is_reviewer(deps@, p) ==> exists|k: int|
                0 <= k < r@.len() && (#[trigger] r@[k]).0@ == p,
        forall|i: int| 0 <= i < r@.len() ==> reviewed_count(deps@, (#[trigger] r@[i]).0@) > 0,
        by_count_descending(counts_view(r@)),
{
    let ids = distinct_reviewers(deps);
    let ghost idv = ids_view(ids@);
    let mut counted: Vec<(PublicId, u64)> = Vec::new();
    let mut i: usize = 0;
    while i < ids.len()
        invariant
            i <= ids.len(),
            idv == ids_view(ids@),
            counted@.len() == i,
            forall|a: int|
                0 <= a < i ==> (#[trigger] counted@[a]).0@ == idv[a] && counted@[a].1
                    == reviewed_count(deps@, idv[a]),
        decreases ids.len() - i,
    {
        let n = count_reviewed(deps, &ids[i]);
        counted.push((ids[i].clone(), n));
        i = i + 1;
    }
    let ghost cv = counts_view(counted@);
    assert forall|a: int, b: int| 0 <= a < b < cv.len() implies (#[trigger] cv[a]).0 != (
    #[trigger] cv[b]).0 by {
        assert(cv[a].0 == idv[a] && cv[b].0 == idv[b]);
    }
    let r = sort_by_count(counted);
    proof {
        let rv = counts_view(r@);
        assert forall|k: int| 0 <= k < r@.len() implies (#[trigger] r@[k]).1 == reviewed_count(
            deps@,
            r@[k].0@,
        ) && reviewed_count(deps@, r@[k].0@) > 0 by {
            assert(rv[k] == (r@[k].0@, r@[k].1));
            let a = choose|a: int| 0 <= a < cv.len() && rv[k] == cv[a];
            assert(cv[a] == (counted@[a].0@, counted@[a].1));
            assert(idv.contains(idv[a]));
            lemma_reviewed_count(deps@, idv[a]);
        }
        assert forall|p: PublicIdView| #[trigger] is_reviewer(deps@, p) implies exists|k: int|
            0 <= k < r@.len() && (#[trigger] r@[k]).0@ == p by {
            assert(idv.contains(p));
            let a = choose|a: int| 0 <= a < idv.len() && idv[a] == p;
            assert(cv[a] == (counted@[a].0@, counted@[a].1));
            let k = choose|k: int| 0 <= k < rv.len() && cv[a] == rv[k];
            assert(rv[k].0 == r@[k].0@);
        }
    }
    r
}

} // verus!
