//! Code review proofs: a review of some files of a package.
use vstd::prelude::*;
use crate::error::{Error, ValidationError};
use crate::id::PublicId;
use crate::package::{PackageInfo, PackageInfoView};
use crate::proofs::{ensure_kind_or_default_is, kind_or, kind_or_default, now, Common, CommonView};
use crate::review::{review_none, Review};
use crate::text::{decimal, push_decimal, push_str};
use crate::trust::fresh_common;
use crate::version::version_text;

verus! {

/// A reviewed file: its path, its digest and the digest's type.
#[derive(Debug)]
pub struct File {
    pub path: String,
    pub digest: Vec<u8>,
    pub digest_type: String,
}

impl View for File {
    type V = (Seq<char>, Seq<u8>, Seq<char>);

    open spec fn view(&self) -> (Seq<char>, Seq<u8>, Seq<char>) {
        (self.path@, self.digest@, self.digest_type@)
    }
}

impl Clone for File {
    fn clone(&self) -> (r: Self)
        ensures
            r@ == self@,
    {
        let digest = self.digest.clone();
        assert(digest@ =~= self.digest@);
        File { path: self.path.clone(), digest, digest_type: self.digest_type.clone() }
    }
}

/// The views of a sequence of files.
pub open spec fn files_view(v: Seq<File>) -> Seq<(Seq<char>, Seq<u8>, Seq<char>)> {
    v.map_values(|f: File| f@)
}

fn clone_files(v: &Vec<File>) -> (r: Vec<File>)
    ensures
        files_view(r@) == files_view(v@),
{
    let mut r: Vec<File> = Vec::new();
    let mut i: usize = 0;
    while i < v.len()
        invariant
            i <= v.len(),
            files_view(r@) == files_view(v@.take(i as int)),
        decreases v.len() - i,
    {
        r.push(v[i].clone());
        i = i + 1;
        assert(files_view(v@.take(i as int)) =~= files_view(v@.take(i - 1)).push(v@[i - 1]@));
        assert(files_view(r@) =~= files_view(v@.take(i as int)));
    }
    assert(v@.take(v.len() as int) == v@);
    r
}

/// The serialization version of code review proofs written now.
pub const CURRENT_CODE_REVIEW_PROOF_SERIALIZATION_VERSION: i64 = -1;

/// The serialization version of code review proofs written now.
pub fn cur_version() -> (v: i64)
    ensures
        v == CURRENT_CODE_REVIEW_PROOF_SERIALIZATION_VERSION,
{
    CURRENT_CODE_REVIEW_PROOF_SERIALIZATION_VERSION
}

/// The body of a code review proof.
#[derive(Debug)]
pub struct Code {
    pub common: Common,
    pub package: PackageInfo,
    pub review: Review,
    pub comment: String,
    pub files: Vec<File>,
}

/// A code review proof as values.
pub struct CodeView {
    pub common: CommonView,
    pub package: PackageInfoView,
    pub review: Review,
    pub comment: Seq<char>,
    pub files: Seq<(Seq<char>, Seq<u8>, Seq<char>)>,
}

impl View for Code {
    type V = CodeView;

    open spec fn view(&self) -> CodeView {
        CodeView {
            common: self.common@,
            package: self.package@,
            review: self.review,
            comment: self.comment@,
            files: files_view(self.files@),
        }
    }
}

impl Clone for Code {
    fn clone(&self) -> (r: Self)
        ensures
            r@ == self@,
    {
        Code {
            common: self.common.clone(),
            package: self.package.clone(),
            review: self.review,
            comment: self.comment.clone(),
            files: clone_files(&self.files),
        }
    }
}

/// The kind of code review proofs.
pub open spec fn code_kind() -> Seq<char> {
    "code review"@
}

/// A code review is valid when its kind (`code review` where the body names
/// none) is right.
pub open spec fn code_valid(c: CodeView) -> bool {
    kind_or(c.common.kind, code_kind()) == code_kind()
}

/// A code review with the edited part (review and comment) replaced.
pub open spec fn code_with_draft(c: CodeView, d: (Review, Seq<char>)) -> CodeView {
    CodeView { review: d.0, comment: d.1, ..c }
}

/// The title of the draft of a code review.
pub open spec fn code_draft_title(c: CodeView) -> Seq<char> {
    "Code Review of "@ + decimal(c.files.len()) + " files of "@ + c.package.0.0.1 + seq![' ']
        + version_text(c.package.0.1)
}

impl Code {
    pub const KIND: &'static str = "code review";

    /// The kind of the proof; `code review` where the body names none.
    pub fn kind(&self) -> (k: &str)
        ensures
            k@ == kind_or(self@.common.kind, code_kind()),
    {
        kind_or_default(&self.common, "code review")
    }

    /// Checks the data of the proof (see [`code_valid`]).
    pub fn validate_data(&self) -> (r: Result<(), ValidationError>)
        ensures
            r is Ok <==> code_valid(self@),
            r matches Err(e) ==> e matches ValidationError::InvalidKind(a, b) && a@ == kind_or(
                self@.common.kind,
                code_kind(),
            ) && b@ == code_kind(),
    {
        ensure_kind_or_default_is(&self.common, "code review", "code review")
    }

    /// The title of the draft of this proof (see [`code_draft_title`]).
    pub fn draft_title(&self) -> (s: String)
        ensures
            s@ == code_draft_title(self@),
    {
        let mut s = String::from_str("Code Review of ");
        push_decimal(&mut s, self.files.len() as u64);
        push_str(&mut s, " files of ");
        push_str(&mut s, self.package.id.id.name.as_str());
        s.push(' ');
        let v = self.package.id.version.to_string();
        push_str(&mut s, v.as_str());
        assert(s@ =~= code_draft_title(self@));
        s
    }

    /// The proof with the review and comment taken from `draft`, if the
    /// result is valid.
    pub fn apply_draft(&self, draft: CodeDraft) -> (r: Result<Code, Error>)
        ensures
            r matches Ok(c) ==> c@ == code_with_draft(self@, draft@),
            r is Ok <==> code_valid(self@),
            r matches Err(e) ==> e matches Error::Validation(ValidationError::InvalidKind(a, b))
                && a@ == kind_or(self@.common.kind, code_kind()) && b@ == code_kind(),
    {
        let mut copy = self.clone();
        copy.review = draft.review;
        copy.comment = draft.comment;
        match copy.validate_data() {
            Ok(()) => Ok(copy),
            Err(e) => Err(Error::Validation(e)),
        }
    }
}

/// Like [`Code`], but only what is edited interactively.
#[derive(Debug)]
pub struct CodeDraft {
    pub review: Review,
    pub comment: String,
}

impl View for CodeDraft {
    type V = (Review, Seq<char>);

    open spec fn view(&self) -> (Review, Seq<char>) {
        (self.review, self.comment@)
    }
}

impl From<Code> for CodeDraft {
    fn from(code: Code) -> (d: CodeDraft)
        ensures
            d.review == code.review && d.comment == code.comment,
    {
        CodeDraft { review: code.review, comment: code.comment }
    }
}

impl vstd::std_specs::convert::FromSpecImpl<Code> for CodeDraft {
    open spec fn obeys_from_spec() -> bool {
        true
    }

    open spec fn from_spec(code: Code) -> CodeDraft {
        CodeDraft { review: code.review, comment: code.comment }
    }
}

/// Applying the draft of a valid code review gives the same review back.
pub proof fn lemma_code_draft_roundtrip(c: CodeView)
    requires
        code_valid(c),
    ensures
        code_with_draft(c, (c.review, c.comment)) == c,
{
}

/// Builds a [`Code`] field by field; `common` and `package` must be set, the
/// others have defaults.
#[derive(Debug)]
pub struct CodeBuilder {
    pub common: Option<Common>,
    pub package: Option<PackageInfo>,
    pub review: Option<Review>,
    pub comment: Option<String>,
    pub files: Option<Vec<File>>,
}

impl Default for CodeBuilder {
    fn default() -> (b: Self)
        ensures
            b.common is None && b.package is None && b.review is None && b.comment is None
                && b.files is None,
    {
        CodeBuilder { common: None, package: None, review: None, comment: None, files: None }
    }
}

impl CodeBuilder {
    /// Sets the author: in the common part if there is one, else in a new
    /// common part dated now.
    pub fn from(&mut self, value: PublicId) -> (r: &mut Self)
        ensures
            match old(self).common {
                Some(c) => r.common matches Some(n) && n@ == CommonView { from: value@, ..c@ },
                None => r.common matches Some(n) && fresh_common(
                    n@,
                    code_kind(),
                    CURRENT_CODE_REVIEW_PROOF_SERIALIZATION_VERSION,
                    value@,
                ),
            },
            r.package == old(self).package && r.review == old(self).review && r.comment == old(
                self,
            ).comment && r.files == old(self).files,
            *final(self) == *final(r),
    {
        match &mut self.common {
            Some(common) => {
                common.from = value;
            },
            None => {
                self.common = Some(
                    Common {
                        kind: Some(String::from_str("code review")),
                        version: cur_version(),
                        date: now(),
                        from: value,
                        original: None,
                    },
                );
            },
        }
        self
    }

    pub fn package(&mut self, value: PackageInfo) -> (r: &mut Self)
        ensures
            *r == (CodeBuilder { package: Some(value), ..*old(self) }),
            *final(self) == *final(r),
    {
        self.package = Some(value);
        self
    }

    pub fn review(&mut self, value: Review) -> (r: &mut Self)
        ensures
            *r == (CodeBuilder { review: Some(value), ..*old(self) }),
            *final(self) == *final(r),
    {
        self.review = Some(value);
        self
    }

    pub fn comment(&mut self, value: String) -> (r: &mut Self)
        ensures
            *r == (CodeBuilder { comment: Some(value), ..*old(self) }),
            *final(self) == *final(r),
    {
        self.comment = Some(value);
        self
    }

    pub fn files(&mut self, value: Vec<File>) -> (r: &mut Self)
        ensures
            *r == (CodeBuilder { files: Some(value), ..*old(self) }),
            *final(self) == *final(r),
    {
        self.files = Some(value);
        self
    }

    /// The proof, from copies of the fields set; an error names the first of
    /// `common` and `package` that is not set.
    pub fn build(&self) -> (r: Result<Code, Error>)
        ensures
            r is Ok <==> self.common is Some && self.package is Some,
            r matches Err(e) ==> e matches Error::BuildingReview(m) && m@ == (if self.common is None {
                "`common` must be initialized"@
            } else {
                "`package` must be initialized"@
            }),
            r matches Ok(c) ==> c@ == (CodeView {
                common: self.common.unwrap()@,
                package: self.package.unwrap()@,
                review: match self.review {
                    Some(v) => v,
                    None => review_none(),
                },
                comment: match self.comment {
                    Some(c) => c@,
                    None => Seq::empty(),
                },
                files: match self.files {
                    Some(v) => files_view(v@),
                    None => Seq::empty(),
                },
            }),
    {
        let common = match &self.common {
            Some(c) => c.clone(),
            None => {
                return Err(Error::BuildingReview(String::from_str("`common` must be initialized")));
            },
        };
        let package = match &self.package {
            Some(p) => p.clone(),
            None => {
                return Err(
                    Error::BuildingReview(String::from_str("`package` must be initialized")),
                );
            },
        };
        let review = match self.review {
            Some(v) => v,
            None => Review::default(),
        };
        let comment = match &self.comment {
            Some(c) => c.clone(),
            None => String::new(),
        };
        let files = match &self.files {
            Some(v) => clone_files(v),
            None => Vec::new(),
        };
        let c = Code { common, package, review, comment, files };
        assert(files_view(c.files@) =~= match self.files {
            Some(v) => files_view(v@),
            None => Seq::empty(),
        });
        Ok(c)
    }
}

} // verus!
