//! The commands and options of `cargo crev`, as values.
use vstd::prelude::*;
use crate::cli::{CrateSelector, CrateVerifyColumns};
use crate::level::Level;
use crate::package_review::{AdviseCommon, TrustProofType, VersionRange};
use crate::trust::TrustLevel;
use crate::version::Version;

verus! {

/// Options handed to `cargo` when it reads the dependency graph.
#[derive(Debug, Clone, Default)]
pub struct CargoOpts {
    pub features: Option<String>,
    pub all_features: bool,
    pub no_default_features: bool,
    pub no_dev_dependencies: bool,
    pub manifest_path: Option<String>,
    pub unstable_flags: Vec<String>,
    /// Skip targets other than this one (given without a value: the host).
    pub target: Option<Option<String>>,
}

/// `id new`: the url of the proof repository, or the GitHub user whose
/// `crev-proofs` repository it is, and whether to push over https.
#[derive(Debug, Clone)]
pub struct IdNew {
    pub url: Option<String>,
    pub github_username: Option<String>,
    pub use_https_push: bool,
}

/// `id switch`: the id to switch to.
#[derive(Debug, Clone)]
pub struct IdSwitch {
    pub id: String,
}

/// How far the web of trust is followed: the greatest distance, and the
/// distance each trust level adds.
#[derive(Debug, Clone, Copy, PartialEq, Eq, Structural, Default)]
pub struct TrustDistanceParams {
    pub depth: u64,
    pub high_cost: u64,
    pub medium_cost: u64,
    pub low_cost: u64,
}

/// `crate diff`: the versions to compare (by default the last reviewed and
/// the current one), what makes a review count, the crate and the arguments
/// of `diff`.
#[derive(Debug, Clone)]
pub struct Diff {
    pub src: Option<Version>,
    pub dst: Option<Version>,
    pub requirements: VerificationRequirements,
    pub trust_params: TrustDistanceParams,
    pub name: String,
    pub args: Vec<String>,
}

/// The least trust level a review's author must have.
#[derive(Debug, Clone, Copy, PartialEq, Eq, Structural)]
pub struct TrustLevelRequirements {
    pub trust_level: Level,
}

/// What makes a crate verified: the trust in the authors of its reviews, how many
/// reviews, and the understanding and thoroughness they report.
#[derive(Debug, Clone, Copy, PartialEq, Eq, Structural)]
pub struct VerificationRequirements {
    pub trust_level: TrustLevelRequirements,
    pub redundancy: u64,
    pub understanding_level: Level,
    pub thoroughness_level: Level,
}

/// `update`: the options for `cargo`.
#[derive(Debug, Clone, Default)]
pub struct Update {
    pub cargo_opts: CargoOpts,
}

/// What the crate commands that verify share: the web of trust, the
/// requirements, the id to start from and the options for `cargo`.
#[derive(Debug, Clone)]
pub struct CrateVerifyCommon {
    pub trust_params: TrustDistanceParams,
    pub requirements: VerificationRequirements,
    pub for_id: Option<String>,
    pub cargo_opts: CargoOpts,
}

/// `crate verify`: the shared options, the columns, and which crates to
/// skip; in recursive mode each crate is shown with its dependencies.
#[derive(Debug, Clone)]
pub struct CrateVerify {
    pub common: CrateVerifyCommon,
    pub columns: CrateVerifyColumns,
    pub interactive: bool,
    pub skip_verified: bool,
    pub skip_known_owners: bool,
    pub skip_indirect: bool,
    pub recursive: bool,
}

/// `id trust` (and `untrust`, `distrust`): the ids, the level (asked for
/// in an editor where none is given), and how to store the proof.
#[derive(Debug, Clone)]
pub struct IdTrust {
    pub public_ids: Vec<String>,
    pub level: Option<TrustLevel>,
    pub common_proof_create: CommonProofCreate,
}

/// `trust`: ids or urls of proof repositories, the level, and how to store
/// the proof.
#[derive(Debug, Clone)]
pub struct TrustUrls {
    pub public_ids_or_urls: Vec<String>,
    pub level: Option<TrustLevel>,
    pub common_proof_create: CommonProofCreate,
}

/// `repo fetch url`: the url of a proof repository.
#[derive(Debug, Clone)]
pub struct RepoFetchUrl {
    pub url: String,
}

/// `repo fetch`: from the trusted ids, from one url, or from all
/// repositories fetched before.
#[derive(Debug, Clone)]
pub enum RepoFetch {
    Trusted { distance_params: TrustDistanceParams, for_id: Option<String> },
    Url(RepoFetchUrl),
    All,
}

/// `id query`: the current id, all known ids, the user's own ids, or the
/// trusted ids.
#[derive(Debug, Clone)]
pub enum IdQuery {
    Current { trust_params: TrustDistanceParams },
    All { trust_params: TrustDistanceParams, for_id: Option<String> },
    Own { trust_params: TrustDistanceParams },
    Trusted {
        trust_params: TrustDistanceParams,
        for_id: Option<String>,
        trust_level: TrustLevelRequirements,
    },
}

/// `repo query review`: the crate.
#[derive(Debug, Clone)]
pub struct RepoQueryReview {
    pub crate_: CrateSelector,
}

/// `repo query advisory`: the crate.
#[derive(Debug, Clone)]
pub struct RepoQueryAdvisory {
    pub crate_: CrateSelector,
}

/// `repo query issue`: the crate, the web of trust, and the least trust in
/// the reporters.
#[derive(Debug, Clone)]
pub struct RepoQueryIssue {
    pub crate_: CrateSelector,
    pub trust_params: TrustDistanceParams,
    pub trust_level: Level,
}

/// `crate dir`: the crate.
#[derive(Debug, Clone)]
pub struct CrateDir {
    pub common: ReviewOrGotoCommon,
}

/// `repo query`: reviews, advisories or issues.
#[derive(Debug, Clone)]
pub enum RepoQuery {
    Review(RepoQueryReview),
    Advisory(RepoQueryAdvisory),
    Issue(RepoQueryIssue),
}

/// `repo edit`: the README or the list of known owners.
#[derive(Debug, Clone, Copy, PartialEq, Eq, Structural)]
pub enum RepoEdit {
    Readme,
    Known,
}

/// `repo git`: the arguments of `git`.
#[derive(Debug, Clone)]
pub struct RepoGit {
    pub args: Vec<String>,
}

/// The crate a review or a `goto` is about.
#[derive(Debug, Clone)]
pub struct ReviewOrGotoCommon {
    pub crate_: CrateSelector,
}

/// `crate open`: the command to open the crate's directory with, whether to
/// keep it as the default, and the crate.
#[derive(Debug, Clone)]
pub struct CrateOpen {
    pub cmd: Option<String>,
    pub cmd_save: bool,
    pub common: ReviewOrGotoCommon,
}

/// How a new proof is handled: committed, printed unsigned or signed,
/// stored.
#[derive(Debug, Clone, Copy, PartialEq, Eq, Structural)]
pub struct CommonProofCreate {
    pub no_commit: bool,
    pub print_unsigned: bool,
    pub print_signed: bool,
    pub no_store: bool,
}

/// `crate review`: the crate, how to handle the proof, an advisory (the
/// versions it affects, its severity), an issue, whether to skip the check
/// of the review activity, the version to review the changes since (given
/// without a value: the latest trusted one), and the options for `cargo`.
#[derive(Debug, Clone)]
pub struct CrateReview {
    pub common: ReviewOrGotoCommon,
    pub common_proof_create: CommonProofCreate,
    pub advisory: bool,
    pub affected: Option<VersionRange>,
    pub severity: Option<Level>,
    pub issue: bool,
    pub skip_activity_check: bool,
    pub diff: Option<Option<Version>>,
    pub cargo_opts: CargoOpts,
}

/// `crate search`: how many results, and the query.
#[derive(Debug, Clone)]
pub struct CrateSearch {
    pub count: usize,
    pub query: String,
}

/// `id export`: the id (by default the current one).
#[derive(Debug, Clone)]
pub struct IdExport {
    pub id: Option<String>,
}

/// `id set-url`: push over https, and the url.
#[derive(Debug, Clone)]
pub struct IdSetUrl {
    pub use_https_push: bool,
    pub url: String,
}

/// `repo import`: give the proofs today's date, and how to store them.
#[derive(Debug, Clone, Copy, PartialEq, Eq, Structural)]
pub struct RepoImport {
    pub reset_date: bool,
    pub common: CommonProofCreate,
}

/// `id`: what to do with ids.
#[derive(Debug, Clone)]
pub enum Id {
    New(IdNew),
    Export(IdExport),
    Import,
    Current,
    Switch(IdSwitch),
    Passwd,
    SetUrl(IdSetUrl),
    Trust(IdTrust),
    Untrust(IdTrust),
    Distrust(IdTrust),
    Query(IdQuery),
}

/// `crate`: what to do with a crate.
#[derive(Debug, Clone)]
pub enum Crate {
    Goto(ReviewOrGotoCommon),
    Open(CrateOpen),
    Clean(ReviewOrGotoCommon),
    Diff(Diff),
    Dir(CrateDir),
    Verify { opts: CrateVerify, crate_: CrateSelector },
    Mvp { opts: CrateVerifyCommon, crate_: CrateSelector },
    Review(CrateReview),
    Unreview(CrateReview),
    Search(CrateSearch),
    Info { opts: CrateVerifyCommon, crate_: CrateSelector },
}

/// `config`: edit it, print shell completions, or show its directory.
#[derive(Debug, Clone)]
pub enum Config {
    Edit,
    Completions { shell: Option<String> },
    Dir,
}

/// `proof find`: reviews of a crate (and version), by an author.
#[derive(Debug, Clone)]
pub struct ProofFind {
    pub crate_: Option<String>,
    pub version: Option<Version>,
    pub author: Option<String>,
}

/// `repo`: what to do with the proof repository.
#[derive(Debug, Clone)]
pub enum Repo {
    Publish,
    Update(Update),
    Git(RepoGit),
    Edit(RepoEdit),
    Import(RepoImport),
    Query(RepoQuery),
    Fetch(RepoFetch),
    Dir,
}

/// `proof`: find proofs.
#[derive(Debug, Clone)]
pub enum Proof {
    Find(ProofFind),
}

/// The commands of `cargo crev`.
#[derive(Debug, Clone)]
pub enum Command {
    Config(Config),
    Crate(Crate),
    Id(Id),
    Proof(Proof),
    Repo(Repo),
    Trust(TrustUrls),
    Goto(ReviewOrGotoCommon),
    Open(CrateOpen),
    Publish,
    Review(CrateReview),
    Update(Update),
    Verify { opts: CrateVerify, crate_: CrateSelector },
}

/// `cargo crev`, as `cargo` runs it.
#[derive(Debug, Clone)]
pub enum MainCommand {
    Crev(Command),
}

/// The command line of `cargo crev`.
#[derive(Debug, Clone)]
pub struct Opts {
    pub command: MainCommand,
}

/// What a `crate review` makes of its options: the level of the issue it
/// reports, the advisory it gives, the kind of trust it places in the
/// crate, and whether the check of the review activity is skipped.
#[derive(Debug, Clone, Copy, PartialEq, Eq, Structural)]
pub struct ReviewPlan {
    pub issue: Option<Level>,
    pub advise: Option<AdviseCommon>,
    pub trust: TrustProofType,
    pub skip_activity_check: bool,
}

/// Is the review an advisory: asked for, with the versions it affects, or
/// with a severity and no issue?
pub open spec fn is_advisory(args: CrateReview) -> bool {
    args.advisory || args.affected is Some || (!args.issue && args.severity is Some)
}

/// What a review makes of its options: an issue of medium level where one
/// is reported; an advisory (by default of medium severity, for the
/// versions up to the next major one) where it is one; distrust for
/// either, else the given kind of trust; and no activity check for either
/// or where it is asked to skip it.
pub open spec fn review_plan_of(args: CrateReview, default_trust_type: TrustProofType) -> ReviewPlan {
    let adv = is_advisory(args);
    ReviewPlan {
        issue: if args.issue {
            Some(Level::Medium)
        } else {
            None
        },
        advise: if adv {
            Some(
                AdviseCommon {
                    severity: match args.severity {
                        Some(s) => s,
                        None => Level::Medium,
                    },
                    affected: match args.affected {
                        Some(a) => a,
                        None => VersionRange::Major,
                    },
                },
            )
        } else {
            None
        },
        trust: if adv || args.issue {
            TrustProofType::Distrust
        } else {
            default_trust_type
        },
        skip_activity_check: args.skip_activity_check || adv || args.issue,
    }
}

impl CrateReview {
    /// What the review makes of its options (see [`review_plan_of`]).
    pub fn plan(&self, default_trust_type: TrustProofType) -> (r: ReviewPlan)
        ensures
            r == review_plan_of(*self, default_trust_type),
    {
        let adv = self.advisory || self.affected.is_some() || (!self.issue
            && self.severity.is_some());
        ReviewPlan {
            issue: if self.issue {
                Some(Level::Medium)
            } else {
                None
            },
            advise: if adv {
                Some(
                    AdviseCommon {
                        severity: match self.severity {
                            Some(s) => s,
                            None => Level::Medium,
                        },
                        affected: match self.affected {
                            Some(a) => a,
                            None => VersionRange::Major,
                        },
                    },
                )
            } else {
                None
            },
            trust: if adv || self.issue {
                TrustProofType::Distrust
            } else {
                default_trust_type
            },
            skip_activity_check: self.skip_activity_check || adv || self.issue,
        }
    }
}

} // verus!
