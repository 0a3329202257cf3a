//! The decisions of the `cargo crev` command line: which crate and version a
//! command selects, which columns `verify` shows, and the checks on its
//! arguments.
use vstd::prelude::*;
use crate::id::{crevid_parse, id_error_text, Id, IdError};
use crate::package::PackageVersionId;
use crate::crate_stats::VerificationStatus;
use crate::text::{contains_text, push_str, starts_with, str_contains};
use crate::version::{semver_parse, version_text, Version};

verus! {

/// Selects a crate by name and version; the version can come from a flag
/// or from a positional argument, but not from both.
#[derive(Debug, Clone)]
pub struct CrateSelector {
    /// The crate is not necessarily a dependency of the current project.
    pub unrelated: bool,
    version: Option<Version>,
    pub name: Option<String>,
    version_positional: Option<Version>,
}

impl CrateSelector {
    /// The crate name given.
    pub closed spec fn name_arg(&self) -> Option<String> {
        self.name
    }

    /// Whether the crate is selected as an unrelated one.
    pub closed spec fn unrelated_arg(&self) -> bool {
        self.unrelated
    }

    /// The version given by flag.
    pub closed spec fn flag_version(&self) -> Option<Version> {
        self.version
    }

    /// The version given as a positional argument.
    pub closed spec fn positional_version(&self) -> Option<Version> {
        self.version_positional
    }

    pub fn new(name: Option<String>, version: Option<Version>, unrelated: bool) -> (r: Self)
        ensures
            r.name_arg() == name,
            r.unrelated_arg() == unrelated,
            r.flag_version() == version,
            r.positional_version() is None,
    {
        CrateSelector { unrelated, name, version, version_positional: None }
    }

    /// A selector from all the arguments of the command line.
    pub fn from_args(
        unrelated: bool,
        version: Option<Version>,
        name: Option<String>,
        version_positional: Option<Version>,
    ) -> (r: Self)
        ensures
            r.name_arg() == name,
            r.unrelated_arg() == unrelated,
            r.flag_version() == version,
            r.positional_version() == version_positional,
    {
        CrateSelector { unrelated, name, version, version_positional }
    }

    /// The selected version, from whichever argument gave it; an error where
    /// both did.
    pub fn version(&self) -> (r: Result<Option<&Version>, String>)
        ensures
            match (self.positional_version(), self.flag_version()) {
                (Some(p), Some(f)) => r matches Err(m) && m@ == "Can't use both positional (`"@
                    + version_text(p@) + "`) and non-positional (`"@ + version_text(f@)
                    + "`) version argument"@,
                (Some(p), None) => r matches Ok(Some(v)) && *v == p,
                (None, Some(f)) => r matches Ok(Some(v)) && *v == f,
                (None, None) => r matches Ok(None),
            },
    {
        match (&self.version_positional, &self.version) {
            (Some(p), Some(np)) => {
                let mut m = String::from_str("Can't use both positional (`");
                let ps = p.to_string();
                push_str(&mut m, ps.as_str());
                push_str(&mut m, "`) and non-positional (`");
                let nps = np.to_string();
                push_str(&mut m, nps.as_str());
                push_str(&mut m, "`) version argument");
                Err(m)
            },
            (Some(p), None) => Ok(Some(p)),
            (None, Some(np)) => Ok(Some(np)),
            (None, None) => Ok(None),
        }
    }

    /// Neither a name nor a version (by flag) is given.
    pub fn is_empty(&self) -> (b: bool)
        ensures
            b == (self.name_arg() is None && self.flag_version() is None),
    {
        self.name.is_none() && self.version.is_none()
    }

    /// An error unless a crate name is given.
    pub fn ensure_name_given(&self) -> (r: Result<(), String>)
        ensures
            r is Ok <==> self.name_arg() is Some,
            r matches Err(m) ==> m@ == "Crate name argument required!"@,
    {
        if self.name.is_none() {
            return Err(String::from_str("Crate name argument required!"));
        }
        Ok(())
    }
}

/// The columns `cargo crev verify` was asked to show. Each is unset, given
/// without a value, or given `true` or `false`; `show_all` sets the default.
#[derive(Debug, Clone, Copy, PartialEq, Eq, Structural)]
pub struct CrateVerifyColumns {
    pub show_digest: Option<Option<bool>>,
    pub show_leftpad_index: Option<Option<bool>>,
    pub show_downloads: Option<Option<bool>>,
    pub show_owners: Option<Option<bool>>,
    pub show_latest_trusted: Option<Option<bool>>,
    pub show_reviews: Option<Option<bool>>,
    pub show_loc: Option<Option<bool>>,
    pub show_issues: Option<Option<bool>>,
    pub show_geiger: Option<Option<bool>>,
    pub show_flags: Option<Option<bool>>,
    pub show_all: bool,
}

impl Default for CrateVerifyColumns {
    fn default() -> (c: Self)
        ensures
            c == (CrateVerifyColumns {
                show_digest: None,
                show_leftpad_index: None,
                show_downloads: None,
                show_owners: None,
                show_latest_trusted: None,
                show_reviews: None,
                show_loc: None,
                show_issues: None,
                show_geiger: None,
                show_flags: None,
                show_all: false,
            }),
    {
        CrateVerifyColumns {
            show_digest: None,
            show_leftpad_index: None,
            show_downloads: None,
            show_owners: None,
            show_latest_trusted: None,
            show_reviews: None,
            show_loc: None,
            show_issues: None,
            show_geiger: None,
            show_flags: None,
            show_all: false,
        }
    }
}

/// Whether a column is shown: its own value where one is given; its default
/// where it is given without a value; `show_all` where it is not given.
pub open spec fn column_shown(v: Option<Option<bool>>, all: bool, default: bool) -> bool {
    match v {
        Some(Some(b)) => b,
        Some(None) => default,
        None => all,
    }
}

fn show_x(v: Option<Option<bool>>, all: bool, default: bool) -> (b: bool)
    ensures
        b == column_shown(v, all, default),
{
    match v {
        Some(Some(b)) => b,
        Some(None) => default,
        None => all,
    }
}

impl CrateVerifyColumns {
    /// Was any column asked for?
    pub fn any_selected(self) -> (b: bool)
        ensures
            b == (self.show_digest is Some || self.show_leftpad_index is Some
                || self.show_downloads is Some || self.show_owners is Some
                || self.show_reviews is Some || self.show_latest_trusted is Some
                || self.show_flags is Some || self.show_issues is Some || self.show_loc is Some
                || self.show_geiger is Some || self.show_all),
    {
        self.show_digest.is_some() || self.show_leftpad_index.is_some()
            || self.show_downloads.is_some() || self.show_owners.is_some()
            || self.show_reviews.is_some() || self.show_latest_trusted.is_some()
            || self.show_flags.is_some() || self.show_issues.is_some() || self.show_loc.is_some()
            || self.show_geiger.is_some() || self.show_all
    }

    /// The digest column is shown only where asked for with `true`.
    pub fn show_digest(self) -> (b: bool)
        ensures
            b == (self.show_digest == Some(Some(true))),
    {
        match self.show_digest {
            Some(Some(b)) => b,
            _ => false,
        }
    }

    pub fn show_reviews(self) -> (b: bool)
        ensures
            b == column_shown(self.show_reviews, self.show_all, false),
    {
        show_x(self.show_reviews, self.show_all, false)
    }

    pub fn show_leftpad_index(self) -> (b: bool)
        ensures
            b == column_shown(self.show_leftpad_index, self.show_all, false),
    {
        show_x(self.show_leftpad_index, self.show_all, false)
    }

    pub fn show_downloads(self) -> (b: bool)
        ensures
            b == column_shown(self.show_downloads, self.show_all, false),
    {
        show_x(self.show_downloads, self.show_all, false)
    }

    pub fn show_latest_trusted(self) -> (b: bool)
        ensures
            b == column_shown(self.show_latest_trusted, self.show_all, true),
    {
        show_x(self.show_latest_trusted, self.show_all, true)
    }

    pub fn show_flags(self) -> (b: bool)
        ensures
            b == column_shown(self.show_flags, self.show_all, true),
    {
        show_x(self.show_flags, self.show_all, true)
    }

    pub fn show_owners(self) -> (b: bool)
        ensures
            b == column_shown(self.show_owners, self.show_all, false),
    {
        show_x(self.show_owners, self.show_all, false)
    }

    pub fn show_issues(self) -> (b: bool)
        ensures
            b == column_shown(self.show_issues, self.show_all, true),
    {
        show_x(self.show_issues, self.show_all, true)
    }

    pub fn show_loc(self) -> (b: bool)
        ensures
            b == column_shown(self.show_loc, self.show_all, false),
    {
        show_x(self.show_loc, self.show_all, false)
    }

    pub fn show_geiger(self) -> (b: bool)
        ensures
            b == column_shown(self.show_geiger, self.show_all, false),
    {
        show_x(self.show_geiger, self.show_all, false)
    }
}

/// Whether a command selects a dependency of the current project or any
/// crate.
#[derive(Debug, Clone, Copy, PartialEq, Eq, Structural)]
pub enum UnrelatedOrDependency {
    Unrelated,
    Dependency,
}

impl UnrelatedOrDependency {
    pub fn is_unrelated(self) -> (b: bool)
        ensures
            b == (self == UnrelatedOrDependency::Unrelated),
    {
        self == UnrelatedOrDependency::Unrelated
    }

    /// The selection an `--unrelated` flag makes.
    pub open spec fn from_unrelated_flag_spec(u: bool) -> Self {
        if u {
            UnrelatedOrDependency::Unrelated
        } else {
            UnrelatedOrDependency::Dependency
        }
    }

    pub fn from_unrelated_flag(u: bool) -> (r: Self)
        ensures
            r == Self::from_unrelated_flag_spec(u),
    {
        if u {
            UnrelatedOrDependency::Unrelated
        } else {
            UnrelatedOrDependency::Dependency
        }
    }
}

/// Why the crate a command is about could not be told.
#[derive(Debug, Clone)]
pub enum GotoModeError {
    /// A crate was named inside a `goto` shell.
    ArgumentsGiven,
    /// The `goto` shell did not record the crate's name.
    NameVarMissing,
    /// The `goto` shell did not record the crate's version.
    VersionVarMissing,
    /// The version the `goto` shell recorded (this text) is not one.
    InvalidVersion(String),
    /// Outside a `goto` shell no crate was named.
    NameRequired,
}

impl GotoModeError {
    /// The message shown for the error; none for an invalid version, whose
    /// message is the version parser's own.
    pub fn message(&self) -> (m: Option<String>)
        ensures
            match self {
                GotoModeError::ArgumentsGiven => m matches Some(t) && t@
                    == "In `crev goto` mode no arguments can be given"@,
                GotoModeError::NameVarMissing => m matches Some(t) && t@
                    == "crate name env var not found"@,
                GotoModeError::VersionVarMissing => m matches Some(t) && t@
                    == "crate version env var not found"@,
                GotoModeError::InvalidVersion(_) => m is None,
                GotoModeError::NameRequired => m matches Some(t) && t@ == "Crate name required"@,
            },
    {
        match self {
            GotoModeError::ArgumentsGiven => Some(
                String::from_str("In `crev goto` mode no arguments can be given"),
            ),
            GotoModeError::NameVarMissing => Some(String::from_str("crate name env var not found")),
            GotoModeError::VersionVarMissing => Some(
                String::from_str("crate version env var not found"),
            ),
            GotoModeError::InvalidVersion(_) => None,
            GotoModeError::NameRequired => Some(String::from_str("Crate name required")),
        }
    }
}

/// The crate a command is about: its name, its version where one is given,
/// and whether it is looked up as an unrelated crate.
#[derive(Debug, Clone)]
pub struct CrateTarget {
    pub name: String,
    pub version: Option<Version>,
    pub unrelated: UnrelatedOrDependency,
}

/// The view of an optional version.
pub open spec fn opt_version_view(v: Option<Version>) -> Option<VersionView> {
    match v {
        Some(x) => Some(x@),
        None => None,
    }
}

/// `r` selects the crate `name` at `version`, looked up as `unrelated` says.
pub open spec fn selects(
    r: Result<CrateTarget, GotoModeError>,
    name: Seq<char>,
    version: Option<VersionView>,
    unrelated: UnrelatedOrDependency,
) -> bool {
    match r {
        Ok(c) => c.name@ == name && opt_version_view(c.version) == version && c.unrelated
            == unrelated,
        Err(_) => false,
    }
}

/// The crate a review-like command is about. Inside a `goto` shell it is the
/// crate the shell was opened for, whose name and version the shell
/// recorded (`goto_name`, `goto_version`), looked up as an unrelated crate,
/// and no crate may be named; outside one it is the crate named, with the
/// version given by flag.
pub fn goto_mode_target(
    in_goto_shell: bool,
    selector: &CrateSelector,
    goto_name: Option<String>,
    goto_version: Option<String>,
) -> (r: Result<CrateTarget, GotoModeError>)
    ensures
        in_goto_shell ==> match (selector.name_arg(), goto_name, goto_version) {
            (Some(_), _, _) => r matches Err(GotoModeError::ArgumentsGiven),
            (None, None, _) => r matches Err(GotoModeError::NameVarMissing),
            (None, Some(_), None) => r matches Err(GotoModeError::VersionVarMissing),
            (None, Some(n), Some(v)) => match semver_parse(v@) {
                None => (r matches Err(GotoModeError::InvalidVersion(t)) && t@ == v@),
                Some(pv) => selects(r, n@, Some(pv), UnrelatedOrDependency::Unrelated),
            },
        },
        !in_goto_shell ==> match selector.name_arg() {
            None => r matches Err(GotoModeError::NameRequired),
            Some(n) => selects(
                r,
                n@,
                opt_version_view(selector.flag_version()),
                UnrelatedOrDependency::from_unrelated_flag_spec(selector.unrelated_arg()),
            ),
        },
{
    if in_goto_shell {
        if selector.name.is_some() {
            return Err(GotoModeError::ArgumentsGiven);
        }
        let name = match goto_name {
            Some(n) => n,
            None => {
                return Err(GotoModeError::NameVarMissing);
            },
        };
        let version = match goto_version {
            Some(v) => v,
            None => {
                return Err(GotoModeError::VersionVarMissing);
            },
        };
        match Version::parse(version.as_str()) {
            Some(v) => Ok(
                CrateTarget { name, version: Some(v), unrelated: UnrelatedOrDependency::Unrelated },
            ),
            None => Err(GotoModeError::InvalidVersion(version)),
        }
    } else {
        let name = match &selector.name {
            Some(n) => n.clone(),
            None => {
                return Err(GotoModeError::NameRequired);
            },
        };
        let version = match &selector.version {
            Some(v) => Some(v.clone()),
            None => None,
        };
        Ok(
            CrateTarget {
                name,
                version,
                unrelated: UnrelatedOrDependency::from_unrelated_flag(selector.unrelated),
            },
        )
    }
}

/// How a command ended when it did not fail: successfully, or with a
/// verification that did not pass.
#[derive(Debug, Clone, Copy, PartialEq, Eq, Structural)]
pub enum CommandExitStatus {
    VerificationFailed,
    Success,
}

/// The version control information `cargo package` records in a crate.
#[derive(Debug, Clone)]
pub struct VcsInfoJson {
    pub git: VcsInfoJsonGit,
}

/// The git revision of a packaged crate.
#[derive(Debug, Clone)]
pub enum VcsInfoJsonGit {
    Sha1(String),
}

impl VcsInfoJson {
    /// The git revision recorded.
    pub fn get_git_revision(&self) -> (r: Option<String>)
        ensures
            r matches Some(s) && self.git matches VcsInfoJsonGit::Sha1(h) && s@ == h@,
    {
        let VcsInfoJsonGit::Sha1(s) = &self.git;
        Some(s.clone())
    }
}

/// The revision recorded in a crate, or the empty string.
pub fn vcs_info_to_revision_string(vcs: Option<VcsInfoJson>) -> (s: String)
    ensures
        s@ == match vcs {
            Some(v) => match v.git {
                VcsInfoJsonGit::Sha1(h) => h@,
            },
            None => Seq::empty(),
        },
{
    match vcs {
        Some(v) => match v.get_git_revision() {
            Some(r) => r,
            None => String::new(),
        },
        None => String::new(),
    }
}

/// The paths ignored when checking a crate's sources after a review: the
/// marker `cargo` adds after extracting a crate, and `target`.
pub fn cargo_full_ignore_list() -> (r: Vec<String>)
    ensures
        r@.len() == 2 && r@[0]@ == ".cargo-ok"@ && r@[1]@ == "target"@,
{
    let mut v: Vec<String> = Vec::new();
    v.push(String::from_str(".cargo-ok"));
    v.push(String::from_str("target"));
    v
}

/// The paths ignored when checking a freshly downloaded crate: only the
/// marker `cargo` adds after extracting it.
pub fn cargo_min_ignore_list() -> (r: Vec<String>)
    ensures
        r@.len() == 1 && r@[0]@ == ".cargo-ok"@,
{
    let mut v: Vec<String> = Vec::new();
    v.push(String::from_str(".cargo-ok"));
    v
}

/// The terminal color red (`term::color::RED`).
pub const RED: u32 = 1;

/// The terminal color green (`term::color::GREEN`).
pub const GREEN: u32 = 2;

/// The terminal color yellow (`term::color::YELLOW`).
pub const YELLOW: u32 = 3;

/// The terminal color blue (`term::color::BLUE`).
pub const BLUE: u32 = 4;

/// The color of a verification status: green where verified or local,
/// yellow where negative, none where insufficient.
pub fn verification_status_color(s: VerificationStatus) -> (c: Option<u32>)
    ensures
        c == crate::verify_output::status_color(s),
{
    match s {
        VerificationStatus::Verified | VerificationStatus::Local => Some(GREEN),
        VerificationStatus::Insufficient => None,
        VerificationStatus::Negative => Some(YELLOW),
    }
}

/// The color of a count of known owners: green where there is any.
pub fn known_owners_count_color(count: u64) -> (c: Option<u32>)
    ensures
        c == (if count > 0 {
            Some(GREEN)
        } else {
            None
        }),
{
    if count > 0 {
        Some(GREEN)
    } else {
        None
    }
}

/// The length in bytes of a text in UTF-8.
pub open spec fn text_len(s: Seq<char>) -> int {
    vstd::utf8::encode_utf8(s).len() as int
}

/// `n` spaces.
pub open spec fn spaces(n: nat) -> Seq<char> {
    Seq::new(n, |i: int| ' ')
}

/// The text padded with spaces on the right to `width` bytes; a longer text
/// is kept as it is.
pub fn pad_left_manually(s: String, width: usize) -> (r: String)
    ensures
        text_len(s@) <= width ==> r@ == s@ + spaces((width - text_len(s@)) as nat),
        text_len(s@) > width ==> r@ == s@,
{
    let len = s.as_str().as_bytes().len();
    if len <= width {
        let mut r = s;
        let n = width - len;
        let mut i: usize = 0;
        while i < n
            invariant
                i <= n,
                r@ == s@ + spaces(i as nat),
            decreases n - i,
        {
            r.push(' ');
            i = i + 1;
            assert(r@ =~= s@ + spaces(i as nat));
        }
        r
    } else {
        s
    }
}

/// The widths of the crate and version columns of `verify`: the longest
/// name and version text, and at least the titles.
#[derive(Debug, Clone, Copy, PartialEq, Eq, Structural)]
pub struct VerifyOutputColumnWidths {
    pub name: usize,
    pub version: usize,
}

impl VerifyOutputColumnWidths {
    /// The widths for these packages (lengths in bytes).
    pub fn from_pkgsids(pkgs_ids: &Vec<PackageVersionId>) -> (w: Self)
        ensures
            w.name >= 5 && w.version >= 7,
            forall|i: int|
                0 <= i < pkgs_ids@.len() ==> text_len((#[trigger] pkgs_ids@[i]).id.name@)
                    <= w.name && text_len(version_text(pkgs_ids@[i].version@)) <= w.version,
            w.name == 5 || exists|i: int|
                0 <= i < pkgs_ids@.len() && text_len((#[trigger] pkgs_ids@[i]).id.name@) == w.name,
            w.version == 7 || exists|i: int|
                0 <= i < pkgs_ids@.len() && text_len(version_text((#[trigger] pkgs_ids@[i]).version@))
                    == w.version,
    {
        let mut name: usize = 5;
        let mut version: usize = 7;
        let mut i: usize = 0;
        while i < pkgs_ids.len()
            invariant
                i <= pkgs_ids@.len(),
                name >= 5 && version >= 7,
                forall|k: int|
                    0 <= k < i ==> text_len((#[trigger] pkgs_ids@[k]).id.name@) <= name
                        && text_len(version_text(pkgs_ids@[k].version@)) <= version,
                name == 5 || exists|k: int|
                    0 <= k < i && text_len((#[trigger] pkgs_ids@[k]).id.name@) == name,
                version == 7 || exists|k: int|
                    0 <= k < i && text_len(version_text((#[trigger] pkgs_ids@[k]).version@))
                        == version,
            decreases pkgs_ids@.len() - i,
        {
            let p = &pkgs_ids[i];
            let n = p.id.name.as_str().as_bytes().len();
            if n > name {
                name = n;
            }
            let vs = p.version.to_string();
            let v = vs.as_str().as_bytes().len();
            if v > version {
                version = v;
            }
            i = i + 1;
        }
        VerifyOutputColumnWidths { name, version }
    }
}

/// What a user is told whose proof repository url is not an `https://` one.
pub open spec fn public_repo_url_message() -> Seq<char> {
    "Proof repositories are for sharing reviews publicly, therefore they must be 'https://' git URLs\nIf you need to use a different URL for pushing to the repository, you may change it later with\n\n        cargo crev repo git remote set-url --push origin <url>"@
}

/// Proof repositories are public: their url must be an `https://` one.
pub fn validate_public_repo_url(url: &str) -> (r: Result<(), String>)
    ensures
        r is Ok <==> starts_with(url@, "https://"@),
        r matches Err(m) ==> m@ == public_repo_url_message(),
{
    let v = crate::text::chars_of(url);
    let p = crate::text::chars_of("https://");
    if !crate::text::chars_start_with(v.as_slice(), p.as_slice()) {
        return Err(
            String::from_str(
                "Proof repositories are for sharing reviews publicly, therefore they must be 'https://' git URLs\nIf you need to use a different URL for pushing to the repository, you may change it later with\n\n        cargo crev repo git remote set-url --push origin <url>",
            ),
        );
    }
    Ok(())
}

/// The crev ids of these texts, or an error naming the first text that is
/// not one.
pub fn ids_from_string(id_strings: &Vec<String>) -> (r: Result<Vec<Id>, String>)
    requires
        forall|i: int| 0 <= i < id_strings@.len() ==> (#[trigger] id_strings@[i])@.len() * 4 + 7
            <= usize::MAX,
    ensures
        r matches Ok(v) ==> v@.len() == id_strings@.len() && forall|i: int|
            0 <= i < v@.len() ==> crevid_parse((#[trigger] id_strings@[i])@) == Ok::<
                Seq<u8>,
                IdError,
            >(v@[i]@),
        r is Err <==> exists|i: int|
            0 <= i < id_strings@.len() && (#[trigger] crevid_parse(id_strings@[i]@)) is Err,
        r matches Err(m) ==> exists|i: int|
            #![trigger id_strings@[i]]
            0 <= i < id_strings@.len() && (forall|k: int|
                0 <= k < i ==> (#[trigger] crevid_parse(id_strings@[k]@)) is Ok) && (crevid_parse(
                id_strings@[i]@,
            ) matches Err(e) && m@ == "'"@ + id_strings@[i]@ + "' is not a valid crev Id: "@
                + id_error_text(e)),
{
    let mut out: Vec<Id> = Vec::new();
    let mut i: usize = 0;
    while i < id_strings.len()
        invariant
            i <= id_strings@.len(),
            forall|j: int| 0 <= j < id_strings@.len() ==> (#[trigger] id_strings@[j])@.len() * 4
                + 7 <= usize::MAX,
            out@.len() == i,
            forall|k: int|
                0 <= k < i ==> crevid_parse((#[trigger] id_strings@[k])@) == Ok::<
                    Seq<u8>,
                    IdError,
                >(out@[k]@),
        decreases id_strings@.len() - i,
    {
        let s = &id_strings[i];
        match Id::crevid_from_str(s.as_str()) {
            Ok(id) => {
                out.push(id);
            },
            Err(e) => {
                let mut m = String::from_str("'");
                push_str(&mut m, s.as_str());
                push_str(&mut m, "' is not a valid crev Id: ");
                let em = e.message();
                push_str(&mut m, em.as_str());
                proof {
                    assert forall|k: int| 0 <= k < i implies (#[trigger] crevid_parse(
                        id_strings@[k]@,
                    )) is Ok by {
                        assert(crevid_parse(id_strings@[k]@) == Ok::<Seq<u8>, IdError>(
                            out@[k]@,
                        ));
                    }
                    assert(crevid_parse(id_strings@[i as int]@) is Err);
                }
                return Err(m);
            },
        }
        i = i + 1;
    }
    proof {
        assert forall|j: int| 0 <= j < id_strings@.len() implies !(#[trigger] crevid_parse(
            id_strings@[j]@,
        ) is Err) by {
            assert(crevid_parse(id_strings@[j]@) == Ok::<Seq<u8>, IdError>(out@[j]@));
        }
    }
    Ok(out)
}

/// Does an error message look like that of a broken pipe (the reader, such
/// as a pager, went away)?
pub fn is_possibly_broken_pipe_msg(s: &str) -> (b: bool)
    ensures
        b == (contains_text(s@, "Broken pipe"@) || contains_text(s@, "os error 32"@)),
{
    str_contains(s, "Broken pipe") || str_contains(s, "os error 32")
}

/// The name crev gives to the crates.io registry that `cargo` names by its
/// index url; other registries keep their url.
pub fn cargo_registry_to_crev_source_id(source_url: &str) -> (s: String)
    ensures
        s@ == (if source_url@ == "registry+https://github.com/rust-lang/crates.io-index"@ {
            "https://crates.io"@
        } else {
            source_url@
        }),
{
    if crate::text::str_eq(source_url, "registry+https://github.com/rust-lang/crates.io-index") {
        String::from_str(crate::package::SOURCE_CRATES_IO)
    } else {
        String::from_str(source_url)
    }
}

/// Where the url of an id comes from: the id's own proofs, verified or not,
/// or the proofs of others.
#[derive(Debug)]
pub enum UrlOfId<'a> {
    NoUrl,
    FromSelfVerified(&'a crate::url::Url),
    FromSelf(&'a crate::url::Url),
    FromOthers(&'a crate::url::Url),
}

/// The mark shown for where an id's url comes from, and the url.
pub fn url_to_status_str<'a>(id_url: &UrlOfId<'a>) -> (r: (&'static str, &'a str))
    ensures
        match id_url {
            UrlOfId::NoUrl => r.0@ == ""@ && r.1@ == ""@,
            UrlOfId::FromSelfVerified(u) => r.0@ == "=="@ && r.1@ == u.url@,
            UrlOfId::FromSelf(u) => r.0@ == "~="@ && r.1@ == u.url@,
            UrlOfId::FromOthers(u) => r.0@ == "??"@ && r.1@ == u.url@,
        },
{
    match id_url {
        UrlOfId::NoUrl => ("", ""),
        UrlOfId::FromSelfVerified(url) => ("==", url.url.as_str()),
        UrlOfId::FromSelf(url) => ("~=", url.url.as_str()),
        UrlOfId::FromOthers(url) => ("??", url.url.as_str()),
    }
}

/// The sum of two optional counts; unknown where either is.
pub fn sum_options(a: Option<u64>, b: Option<u64>) -> (r: Option<u64>)
    requires
        a is Some && b is Some ==> a.unwrap() + b.unwrap() <= u64::MAX,
    ensures
        r == match (a, b) {
            (Some(x), Some(y)) => Some((x + y) as u64),
            _ => None,
        },
{
    match (a, b) {
        (Some(x), Some(y)) => Some(x + y),
        _ => None,
    }
}

/// How the latest trusted version compares to a version: `↑` where it is
/// newer, `↓` where it is older, `=` where neither, followed by its text
/// unless it is the same version; empty where there is no trusted version.
pub open spec fn latest_trusted_text(base: VersionView, latest: Option<VersionView>) -> Seq<char> {
    match latest {
        None => Seq::empty(),
        Some(l) => (if crate::version::semver_lt(base, l) {
            "↑"@
        } else if crate::version::semver_lt(l, base) {
            "↓"@
        } else {
            "="@
        }) + (if base == l {
            Seq::empty()
        } else {
            version_text(l)
        }),
    }
}

/// A version as values.
pub type VersionView = (u64, u64, u64, Seq<char>, Seq<char>);

/// The latest trusted version relative to `base_version` (see
/// [`latest_trusted_text`]).
pub fn latest_trusted_version_string(
    base_version: &Version,
    latest_trusted_version: &Option<Version>,
) -> (s: String)
    ensures
        s@ == latest_trusted_text(
            base_version@,
            match latest_trusted_version {
                Some(l) => Some(l@),
                None => None,
            },
        ),
        latest_trusted_version matches Some(l) && l@ == base_version@ ==> s@ == "="@,
{
    proof {
        reveal_strlit("=");
    }
    match latest_trusted_version {
        Some(latest) => {
            let mut s = if base_version.lt(latest) {
                String::from_str("↑")
            } else if latest.lt(base_version) {
                String::from_str("↓")
            } else {
                String::from_str("=")
            };
            if !base_version.same_as(latest) {
                let t = latest.to_string();
                push_str(&mut s, t.as_str());
            }
            s
        },
        None => String::new(),
    }
}

/// The downloads of one version of a crate (the count listed for the version
/// whose number is the version's text, 0 where none is) and of the crate.
pub fn get_downloads_stats(
    versions: &Vec<(String, u64)>,
    crate_downloads: u64,
    version: &Version,
) -> (r: (u64, u64))
    ensures
        r.1 == crate_downloads,
        r.0 == 0 || exists|i: int|
            0 <= i < versions@.len() && (#[trigger] versions@[i]).0@ == version_text(version@)
                && versions@[i].1 == r.0,
        (exists|i: int|
            0 <= i < versions@.len() && (#[trigger] versions@[i]).0@ == version_text(version@))
            ==> exists|i: int|
            0 <= i < versions@.len() && (#[trigger] versions@[i]).0@ == version_text(version@)
                && versions@[i].1 == r.0 && forall|k: int|
                0 <= k < i ==> (#[trigger] versions@[k]).0@ != version_text(version@),
        (forall|i: int|
            0 <= i < versions@.len() ==> (#[trigger] versions@[i]).0@ != version_text(version@))
            ==> r.0 == 0,
{
    let text = version.to_string();
    let mut i: usize = 0;
    while i < versions.len()
        invariant
            i <= versions@.len(),
            text@ == version_text(version@),
            forall|k: int| 0 <= k < i ==> (#[trigger] versions@[k]).0@ != text@,
        decreases versions@.len() - i,
    {
        if crate::text::str_eq(versions[i].0.as_str(), text.as_str()) {
            return (versions[i].1, crate_downloads);
        }
        i = i + 1;
    }
    (0, crate_downloads)
}

/// The editor to run: `VISUAL`, else `EDITOR`, else git's `core.editor`,
/// else `vi`.
pub fn editor_to_use(visual: Option<String>, editor: Option<String>, git_editor: Option<String>) -> (e:
    String)
    ensures
        e@ == match (visual, editor, git_editor) {
            (Some(v), _, _) => v@,
            (None, Some(v), _) => v@,
            (None, None, Some(v)) => v@,
            (None, None, None) => "vi"@,
        },
{
    match visual {
        Some(v) => v,
        None => match editor {
            Some(v) => v,
            None => match git_editor {
                Some(v) => v,
                None => String::from_str("vi"),
            },
        },
    }
}

/// What a reply to "Commit anyway? (y/N/q)" means: commit (`y`), cancel
/// (`q`), or, for anything else, edit again (`None`).
pub fn commit_anyway_reply(reply: &str) -> (r: Option<Result<(), crate::util::CancelledError>>)
    ensures
        r == (if reply@ == "y"@ || reply@ == "Y"@ {
            Some(Ok::<(), crate::util::CancelledError>(()))
        } else if reply@ == "q"@ || reply@ == "Q"@ {
            Some(Err(crate::util::CancelledError::ByUser))
        } else {
            None
        }),
{
    if crate::text::str_eq(reply, "y") || crate::text::str_eq(reply, "Y") {
        Some(Ok(()))
    } else if crate::text::str_eq(reply, "q") || crate::text::str_eq(reply, "Q") {
        Some(Err(crate::util::CancelledError::ByUser))
    } else {
        None
    }
}

/// The last recorded review activity on a crate version: when, and the
/// version a differential review was based on.
#[derive(Debug, Clone)]
pub struct ReviewActivity {
    pub timestamp: crate::proofs::Date,
    pub diff_base: Option<Version>,
}

/// Whether a review covers the whole code or a difference to a base version.
#[derive(Debug, Clone, Copy, PartialEq, Eq, Structural)]
pub enum ReviewMode {
    Full,
    Differential,
}

impl ReviewActivity {
    /// The mode of the recorded review: differential where it has a base.
    pub fn to_review_mode(&self) -> (m: ReviewMode)
        ensures
            m == (if self.diff_base is Some {
                ReviewMode::Differential
            } else {
                ReviewMode::Full
            }),
    {
        if self.diff_base.is_some() {
            ReviewMode::Differential
        } else {
            ReviewMode::Full
        }
    }
}

/// Is an activity at `t` more than two days older than `now`?
pub open spec fn activity_too_old(t: crate::proofs::Date, now: crate::proofs::Date) -> bool {
    t.timestamp + 172800 < now.timestamp || (t.timestamp + 172800 == now.timestamp && t.nanos
        < now.nanos)
}

/// `name:version`, as messages about review activity name a crate version.
pub open spec fn crate_version_text(name: Seq<char>, version: VersionView) -> Seq<char> {
    name + ":"@ + version_text(version)
}

/// The base version a `--diff` argument asks for: none without the flag,
/// the given one, or, for the flag without a version, the base of the last
/// recorded differential review (an error where there is none).
pub open spec fn diff_base_asked(
    activity: Option<ReviewActivity>,
    name: Seq<char>,
    version: VersionView,
    diff: Option<Option<Version>>,
) -> Result<Option<VersionView>, Seq<char>> {
    match diff {
        None => Ok(None),
        Some(Some(v)) => Ok(Some(v@)),
        Some(None) => match activity {
            None => Err("No previous review activity to determine base version"@),
            Some(a) => match a.diff_base {
                None => Err(full_review_message(name, version)),
                Some(b) => Ok(Some(b@)),
            },
        },
    }
}

pub open spec fn full_review_message(name: Seq<char>, version: VersionView) -> Seq<char> {
    "Last review activity record for "@ + crate_version_text(name, version)
        + " indicates full review. Are you sure you want to use `--diff` flag? Use `--skip-activity-check` to override."@
}

pub open spec fn differential_review_message(name: Seq<char>, version: VersionView) -> Seq<char> {
    "Last review activity record for "@ + crate_version_text(name, version)
        + " indicates differential review. Use `--diff` flag? Use `--skip-activity-check` to override."@
}

pub open spec fn too_old_message(name: Seq<char>, version: VersionView) -> Seq<char> {
    "Last review activity record for "@ + crate_version_text(name, version)
        + " is too old. Re-review or use `--skip-activity-check` to override."@
}

pub open spec fn no_activity_message(name: Seq<char>, version: VersionView) -> Seq<char> {
    "No review activity record for "@ + crate_version_text(name, version)
        + " found. Make sure you have reviewed the code in this version before creating review proof. Use `--skip-activity-check` to override."@
}

/// Checks the `--diff` argument of a review against the last recorded review
/// activity: the base version to review against, or why the review cannot be
/// made as asked.
pub open spec fn review_activity_outcome(
    activity: Option<ReviewActivity>,
    name: Seq<char>,
    version: VersionView,
    diff: Option<Option<Version>>,
    skip_activity_check: bool,
    now: crate::proofs::Date,
) -> Result<Option<VersionView>, Seq<char>> {
    match diff_base_asked(activity, name, version, diff) {
        Err(m) => Err(m),
        Ok(d) => if skip_activity_check {
            Ok(d)
        } else {
            match activity {
                None => Err(no_activity_message(name, version)),
                Some(a) => if a.diff_base is None && d is Some {
                    Err(full_review_message(name, version))
                } else if a.diff_base is Some && d is None {
                    Err(differential_review_message(name, version))
                } else if activity_too_old(a.timestamp, now) {
                    Err(too_old_message(name, version))
                } else {
                    Ok(d)
                },
            }
        },
    }
}

fn crate_version_string(name: &str, version: &Version) -> (s: String)
    ensures
        s@ == crate_version_text(name@, version@),
{
    let mut s = String::from_str(name);
    s.push(':');
    proof {
        reveal_strlit(":");
    }
    let v = version.to_string();
    push_str(&mut s, v.as_str());
    assert(s@ =~= crate_version_text(name@, version@));
    s
}

fn activity_message(prefix: &str, name: &str, version: &Version, suffix: &str) -> (s: String)
    ensures
        s@ == prefix@ + crate_version_text(name@, version@) + suffix@,
{
    let mut s = String::from_str(prefix);
    let cv = crate_version_string(name, version);
    push_str(&mut s, cv.as_str());
    push_str(&mut s, suffix);
    s
}

/// See [`review_activity_outcome`]; `activity` is the last recorded review
/// activity on the crate version, `now` the current time.
pub fn crate_review_activity_check(
    activity: Option<ReviewActivity>,
    name: &str,
    version: &Version,
    diff: &Option<Option<Version>>,
    skip_activity_check: bool,
    now: &crate::proofs::Date,
) -> (r: Result<Option<Version>, String>)
    ensures
        match review_activity_outcome(activity, name@, version@, *diff, skip_activity_check, *now) {
            Ok(d) => r matches Ok(v) && match (v, d) {
                (Some(a), Some(b)) => a@ == b,
                (None, None) => true,
                _ => false,
            },
            Err(m) => r matches Err(e) && e@ == m,
        },
{
    let full = " indicates full review. Are you sure you want to use `--diff` flag? Use `--skip-activity-check` to override.";
    let prefix = "Last review activity record for ";
    let diff: Option<Version> = match diff {
        None => None,
        Some(Some(v)) => Some(v.clone()),
        Some(None) => match &activity {
            None => {
                return Err(String::from_str("No previous review activity to determine base version"));
            },
            Some(a) => match &a.diff_base {
                None => {
                    return Err(activity_message(prefix, name, version, full));
                },
                Some(b) => Some(b.clone()),
            },
        },
    };
    if skip_activity_check {
        return Ok(diff);
    }
    match &activity {
        Some(a) => {
            match a.to_review_mode() {
                ReviewMode::Full => {
                    if diff.is_some() {
                        return Err(activity_message(prefix, name, version, full));
                    }
                },
                ReviewMode::Differential => {
                    if diff.is_none() {
                        return Err(
                            activity_message(
                                prefix,
                                name,
                                version,
                                " indicates differential review. Use `--diff` flag? Use `--skip-activity-check` to override.",
                            ),
                        );
                    }
                },
            }
            let t = (a.timestamp.timestamp as i128) + 172800;
            let n = now.timestamp as i128;
            if t < n || (t == n && a.timestamp.nanos < now.nanos) {
                return Err(
                    activity_message(
                        prefix,
                        name,
                        version,
                        " is too old. Re-review or use `--skip-activity-check` to override.",
                    ),
                );
            }
        },
        None => {
            return Err(
                activity_message(
                    "No review activity record for ",
                    name,
                    version,
                    " found. Make sure you have reviewed the code in this version before creating review proof. Use `--skip-activity-check` to override.",
                ),
            );
        },
    }
    Ok(diff)
}

/// The owner names a known-owners list holds: its lines, trimmed, except
/// comment lines (starting with `#`).
pub open spec fn known_owner_entries(ls: Seq<Seq<char>>) -> Seq<Seq<char>>
    decreases ls.len(),
{
    if ls.len() == 0 {
        Seq::empty()
    } else {
        let rest = known_owner_entries(ls.drop_last());
        let t = crate::text::trim(ls.last());
        if starts_with(t, "#"@) {
            rest
        } else {
            rest.push(t)
        }
    }
}

/// The names in a known-owners list (see [`known_owner_entries`]), each once.
pub fn parse_known_owners(content: &str) -> (r: Vec<String>)
    ensures
        crate::crate_stats::names_view(r@).no_duplicates(),
        crate::crate_stats::names_view(r@).to_set() == known_owner_entries(
            crate::text::lines(content@),
        ).to_set(),
{
    let ls = crate::text::split_lines(content);
    let ghost views = ls@.map_values(|l: String| l@);
    let hash = crate::text::chars_of("#");
    let mut kept: Vec<String> = Vec::new();
    let mut i: usize = 0;
    assert(views.take(0) =~= Seq::<Seq<char>>::empty());
    assert(crate::crate_stats::names_view(kept@) =~= Seq::<Seq<char>>::empty());
    while i < ls.len()
        invariant
            i <= ls.len(),
            views == ls@.map_values(|l: String| l@),
            views == crate::text::lines(content@),
            hash@ == "#"@,
            crate::crate_stats::names_view(kept@) == known_owner_entries(views.take(i as int)),
        decreases ls.len() - i,
    {
        let v = crate::text::chars_of(ls[i].as_str());
        let t = crate::text::trim_chars(v.as_slice());
        assert(views.take(i + 1).drop_last() == views.take(i as int));
        assert(views.take(i + 1).last() == ls@[i as int]@);
        if !crate::text::chars_start_with(t.as_slice(), hash.as_slice()) {
            let ghost before = crate::crate_stats::names_view(kept@);
            kept.push(crate::text::string_from_chars(t.as_slice()));
            assert(crate::crate_stats::names_view(kept@) =~= before.push(t@));
        }
        i = i + 1;
    }
    assert(views.take(ls.len() as int) == views);
    crate::crate_stats::distinct_names(&kept)
}

/// The command that opens a crate's directory: the configured one, else the
/// platform's (`start` on Windows, `open` on macOS, `xdg-open` elsewhere).
pub fn open_cmd(configured: Option<String>, os: &str) -> (c: String)
    ensures
        c@ == match configured {
            Some(c) => c@,
            None => if os@ == "windows"@ {
                "start"@
            } else if os@ == "macos"@ {
                "open"@
            } else {
                "xdg-open"@
            },
        },
{
    match configured {
        Some(c) => c,
        None => if crate::text::str_eq(os, "windows") {
            String::from_str("start")
        } else if crate::text::str_eq(os, "macos") {
            String::from_str("open")
        } else {
            String::from_str("xdg-open")
        },
    }
}

/// A shell that completions can be made for.
#[derive(Debug, Clone, Copy, PartialEq, Eq, Structural)]
pub enum Shell {
    Bash,
    Zsh,
    PowerShell,
    Elvish,
    Fish,
}

/// The shell of a name, if completions can be made for it.
pub open spec fn shell_named(name: Seq<char>) -> Option<Shell> {
    if name == "bash"@ {
        Some(Shell::Bash)
    } else if name == "zsh"@ {
        Some(Shell::Zsh)
    } else if name == "powershell"@ {
        Some(Shell::PowerShell)
    } else if name == "elvish"@ {
        Some(Shell::Elvish)
    } else if name == "fish"@ {
        Some(Shell::Fish)
    } else {
        None
    }
}

/// The shell to make completions for, by its name (the file name of
/// `$SHELL` where none is given); an error for any other name.
pub fn completion_shell(name: &str) -> (r: Result<Shell, String>)
    ensures
        r matches Ok(s) ==> shell_named(name@) == Some(s),
        r matches Err(e) ==> shell_named(name@) is None && e@ == name@ + " shell not supported"@,
{
    proof {
        reveal_strlit("bash");
        reveal_strlit("zsh");
        reveal_strlit("powershell");
        reveal_strlit("elvish");
        reveal_strlit("fish");
        reveal_strlit(" shell not supported");
    }
    if crate::text::str_eq(name, "bash") {
        Ok(Shell::Bash)
    } else if crate::text::str_eq(name, "zsh") {
        Ok(Shell::Zsh)
    } else if crate::text::str_eq(name, "powershell") {
        Ok(Shell::PowerShell)
    } else if crate::text::str_eq(name, "elvish") {
        Ok(Shell::Elvish)
    } else if crate::text::str_eq(name, "fish") {
        Ok(Shell::Fish)
    } else {
        let mut e = String::new();
        push_str(&mut e, name);
        push_str(&mut e, " shell not supported");
        assert(e@ =~= name@ + " shell not supported"@);
        Err(e)
    }
}

/// The url of the proof repository for a new id: the url given, or the
/// `crev-proofs` repository of the GitHub user given; none where neither
/// is given, and an error where both are.
pub open spec fn new_id_url_of(url: Option<Seq<char>>, github_username: Option<Seq<char>>) -> Result<
    Option<Seq<char>>,
    Seq<char>,
> {
    match (url, github_username) {
        (None, Some(u)) => Ok(Some("https://github.com/"@ + u + "/crev-proofs"@)),
        (Some(u), None) => Ok(Some(u)),
        (None, None) => Ok(None),
        _ => Err("Must provide either a github username or url, but not both."@),
    }
}

/// The url of the proof repository for a new id (see [`new_id_url_of`]).
pub fn new_id_url(args: crate::opts::IdNew) -> (r: Result<Option<String>, String>)
    ensures
        match (r, new_id_url_of(
            match args.url {
                Some(u) => Some(u@),
                None => None,
            },
            match args.github_username {
                Some(u) => Some(u@),
                None => None,
            },
        )) {
            (Ok(Some(a)), Ok(Some(b))) => a@ == b,
            (Ok(None), Ok(None)) => true,
            (Err(a), Err(b)) => a@ == b,
            _ => false,
        },
{
    proof {
        reveal_strlit("https://github.com/");
        reveal_strlit("/crev-proofs");
        reveal_strlit("Must provide either a github username or url, but not both.");
    }
    match (args.url, args.github_username) {
        (None, Some(username)) => {
            let mut s = String::new();
            push_str(&mut s, "https://github.com/");
            push_str(&mut s, username.as_str());
            push_str(&mut s, "/crev-proofs");
            assert(s@ =~= "https://github.com/"@ + username@ + "/crev-proofs"@);
            Ok(Some(s))
        },
        (Some(url), None) => Ok(Some(url)),
        (None, None) => Ok(None),
        _ => Err(String::from_str("Must provide either a github username or url, but not both.")),
    }
}

/// The line `cargo crev id current` shows for one of the user's ids: the
/// id, its url (or `(no url)`), and ` (current)` for the current one.
pub open spec fn own_id_line(id: crate::id::PublicIdView, is_current: bool) -> Seq<char> {
    crate::common::base64_url_nopad(id.0) + " "@ + match id.1 {
        Some(u) => u.0,
        None => "(no url)"@,
    } + if is_current {
        " (current)"@
    } else {
        Seq::empty()
    } + "\n"@
}

/// The line shown for one of the user's ids (see [`own_id_line`]); it is
/// the current one where its id is that of `current`.
pub fn current_id_line(id: &crate::id::PublicId, current: &Option<crate::id::PublicId>) -> (s:
    String)
    requires
        4 * (id.id@.len() / 3) + 3 <= usize::MAX,
    ensures
        s@ == own_id_line(
            id@,
            match current {
                Some(c) => c.id@ == id.id@,
                None => false,
            },
        ),
{
    proof {
        reveal_strlit(" ");
        reveal_strlit(" (current)");
        reveal_strlit("\n");
    }
    let is_current = match current {
        Some(c) => crate::id::ids_equal(&c.id, &id.id),
        None => false,
    };
    let mut s = id.id.to_string();
    push_str(&mut s, " ");
    push_str(&mut s, id.url_display());
    if is_current {
        push_str(&mut s, " (current)");
    }
    push_str(&mut s, "\n");
    assert(s@ =~= own_id_line(id@, is_current));
    s
}

/// The version `cargo crev crate diff` compares against: the one given, else
/// the latest trusted one; an error where there is neither.
pub fn diff_source_version(given: Option<Version>, latest_trusted: Option<Version>) -> (r: Result<
    Version,
    String,
>)
    ensures
        match (given, latest_trusted) {
            (Some(g), _) => r == Ok::<Version, String>(g),
            (None, Some(l)) => r == Ok::<Version, String>(l),
            (None, None) => r matches Err(e) && e@ == "No previously reviewed version found"@,
        },
{
    match given {
        Some(g) => Ok(g),
        None => match latest_trusted {
            Some(l) => Ok(l),
            None => {
                proof {
                    reveal_strlit("No previously reviewed version found");
                }
                Err(String::from_str("No previously reviewed version found"))
            },
        },
    }
}

/// The arguments of the `diff` run between two crate sources: recursive,
/// absent files as empty, the older source, the newer, then the extra
/// arguments given.
pub fn diff_args(src_root: String, dst_root: String, extra: &Vec<String>) -> (r: Vec<String>)
    ensures
        r@.len() == 4 + extra@.len(),
        r@[0]@ == "-r"@,
        r@[1]@ == "-N"@,
        r@[2]@ == src_root@,
        r@[3]@ == dst_root@,
        forall|i: int| 0 <= i < extra@.len() ==> (#[trigger] r@[4 + i])@ == extra@[i]@,
{
    proof {
        reveal_strlit("-r");
        reveal_strlit("-N");
    }
    let mut r: Vec<String> = Vec::new();
    r.push(String::from_str("-r"));
    r.push(String::from_str("-N"));
    r.push(src_root);
    r.push(dst_root);
    let mut i: usize = 0;
    while i < extra.len()
        invariant
            i <= extra.len(),
            r@.len() == 4 + i,
            r@[0]@ == "-r"@,
            r@[1]@ == "-N"@,
            r@[2]@ == src_root@,
            r@[3]@ == dst_root@,
            forall|k: int| 0 <= k < i ==> (#[trigger] r@[4 + k])@ == extra@[k]@,
        decreases extra.len() - i,
    {
        r.push(extra[i].clone());
        i = i + 1;
    }
    r
}

/// The test for an id with a url.
pub open spec fn has_url_test() -> spec_fn(crate::id::PublicId) -> bool {
    |p: crate::id::PublicId| p.url is Some
}

/// The ids among `ids` that have a url, in order.
pub open spec fn ids_with_urls(ids: Seq<crate::id::PublicId>) -> Seq<crate::id::PublicId> {
    ids.filter(has_url_test())
}

/// The warning shown for an id the user already has, with a url.
pub open spec fn existing_id_warning(id: crate::id::PublicIdView) -> Seq<char> {
    "warning: you already have a CrevID "@ + crate::common::base64_url_nopad(id.0) + " "@
        + match id.1 {
        Some(u) => u.0,
        None => "(no url)"@,
    } + "\n"@
}

/// The warnings shown for ids the user already has (those with a url).
pub open spec fn existing_id_warnings_text(ids: Seq<crate::id::PublicId>) -> Seq<char>
    decreases ids.len(),
{
    if ids.len() == 0 {
        Seq::empty()
    } else {
        existing_id_warnings_text(ids.drop_last()) + if ids.last().url is Some {
            existing_id_warning(ids.last()@)
        } else {
            Seq::empty()
        }
    }
}

/// The ids can be displayed.
pub open spec fn public_ids_displayable(ids: Seq<crate::id::PublicId>) -> bool {
    forall|i: int| 0 <= i < ids.len() ==> 4 * ((#[trigger] ids[i]).id@.len() / 3) + 3 <= usize::MAX
}

/// The warnings `cargo crev id new` shows, before making a new id, for each
/// id the user already has with a url (see [`existing_id_warnings_text`]).
pub fn existing_id_warnings(ids: &Vec<crate::id::PublicId>) -> (s: String)
    requires
        public_ids_displayable(ids@),
    ensures
        s@ == existing_id_warnings_text(ids@),
{
    proof {
        reveal_strlit("warning: you already have a CrevID ");
        reveal_strlit(" ");
        reveal_strlit("\n");
    }
    let mut s = String::new();
    let mut i: usize = 0;
    assert(ids@.take(0) =~= Seq::<crate::id::PublicId>::empty());
    while i < ids.len()
        invariant
            i <= ids.len(),
            public_ids_displayable(ids@),
            s@ == existing_id_warnings_text(ids@.take(i as int)),
        decreases ids.len() - i,
    {
        assert(ids@.take(i + 1).drop_last() == ids@.take(i as int));
        assert(ids@.take(i + 1).last() == ids@[i as int]);
        let id = &ids[i];
        let ghost before = s@;
        if id.url.is_some() {
            push_str(&mut s, "warning: you already have a CrevID ");
            let t = id.id.to_string();
            push_str(&mut s, t.as_str());
            push_str(&mut s, " ");
            push_str(&mut s, id.url_display());
            push_str(&mut s, "\n");
            assert(s@ =~= before + existing_id_warning(id@));
        } else {
            assert(s@ =~= before + Seq::<char>::empty());
        }
        i = i + 1;
    }
    assert(ids@.take(ids.len() as int) == ids@);
    s
}

/// How to set up an existing id instead of making a new one, for the first
/// id the user has with a url: if it is the current id, to give it a url
/// and a passphrase; else to switch to it first. Nothing where the user has
/// no id with a url.
pub open spec fn existing_id_hint_text(ids: Seq<crate::id::PublicId>, current: Option<Seq<u8>>) -> Seq<
    char,
> {
    let usable = ids_with_urls(ids);
    if usable.len() == 0 {
        Seq::empty()
    } else if current == Some(usable[0].id@) {
        "You can configure the existing CrevID with `cargo crev set-url` and `cargo crev id passwd`\n\n"@
    } else {
        "You can use existing CrevID with `cargo crev id switch "@ + crate::common::base64_url_nopad(
            usable[0].id@,
        ) + "`\nand set it up with `cargo crev set-url` and `cargo crev id passwd`\n\n"@
    }
}

/// How to set up an existing id (see [`existing_id_hint_text`]).
pub fn existing_id_hint(ids: &Vec<crate::id::PublicId>, current: &Option<Id>) -> (s: String)
    requires
        public_ids_displayable(ids@),
    ensures
        s@ == existing_id_hint_text(
            ids@,
            match current {
                Some(c) => Some(c@),
                None => None,
            },
        ),
{
    proof {
        reveal_strlit(
            "You can configure the existing CrevID with `cargo crev set-url` and `cargo crev id passwd`\n\n",
        );
        reveal_strlit("You can use existing CrevID with `cargo crev id switch ");
        reveal_strlit("`\nand set it up with `cargo crev set-url` and `cargo crev id passwd`\n\n");
    }
    let ghost test = has_url_test();
    let mut i: usize = 0;
    while i < ids.len() && ids[i].url.is_none()
        invariant
            i <= ids.len(),
            forall|k: int| 0 <= k < i ==> (#[trigger] ids@[k]).url is None,
        decreases ids.len() - i,
    {
        i = i + 1;
    }
    proof {
        assert(ids@.take(i as int).filter(test) =~= Seq::<crate::id::PublicId>::empty()) by {
            ids@.take(i as int).lemma_filter_len(test);
            assert forall|k: int| 0 <= k < ids@.take(i as int).len() implies !test(
                #[trigger] ids@.take(i as int)[k],
            ) by {
                assert(ids@.take(i as int)[k] == ids@[k]);
            }
            ids@.take(i as int).lemma_all_neg_filter_empty(test);
        }
        assert(ids@ == ids@.take(i as int) + ids@.skip(i as int));
        Seq::filter_distributes_over_add(ids@.take(i as int), ids@.skip(i as int), test);
        if i < ids.len() {
            let rest = ids@.skip(i as int);
            assert(rest == seq![rest[0]] + rest.drop_first());
            Seq::filter_distributes_over_add(seq![rest[0]], rest.drop_first(), test);
            assert(seq![rest[0]].filter(test) =~= seq![rest[0]]) by {
                reveal(Seq::filter);
                assert(seq![rest[0]].drop_last() =~= Seq::<crate::id::PublicId>::empty());
            }
            assert(ids_with_urls(ids@)[0] == ids@[i as int]);
        } else {
            assert(ids@.skip(i as int) =~= Seq::<crate::id::PublicId>::empty());
            assert(ids_with_urls(ids@) =~= Seq::<crate::id::PublicId>::empty());
        }
    }
    if i == ids.len() {
        return String::new();
    }
    let example = &ids[i];
    let is_current = match current {
        Some(c) => crate::id::ids_equal(c, &example.id),
        None => false,
    };
    if is_current {
        String::from_str(
            "You can configure the existing CrevID with `cargo crev set-url` and `cargo crev id passwd`\n\n",
        )
    } else {
        let mut s = String::new();
        push_str(&mut s, "You can use existing CrevID with `cargo crev id switch ");
        let t = example.id.to_string();
        push_str(&mut s, t.as_str());
        push_str(&mut s, "`\nand set it up with `cargo crev set-url` and `cargo crev id passwd`\n\n");
        assert(s@ =~= existing_id_hint_text(
            ids@,
            match current {
                Some(c) => Some(c@),
                None => None,
            },
        ));
        s
    }
}

} // verus!
