//! Trust proofs: the trust (or distrust) an id places in other ids.
use vstd::prelude::*;
use crate::error::{Error, ValidationError};
use crate::id::{PublicId, PublicIdView};
use crate::level::{level_rank, level_text, Level};
use crate::proofs::{ensure_kind_or_default_is, kind_or, kind_or_default, now, Common, CommonView};
use crate::text::{push_decimal, push_str, str_eq};

verus! {

/// How much an id is trusted; `Distrust` marks an id as harmful.
#[derive(Debug, Copy, Clone, PartialEq, Eq, Structural, PartialOrd, Ord)]
pub enum TrustLevel {
    Distrust,
    Nil,
    Low,
    Medium,
    High,
}

/// Position of a trust level in the order `Distrust < Nil < Low < Medium < High`.
pub open spec fn trust_level_rank(t: TrustLevel) -> int {
    match t {
        TrustLevel::Distrust => 0,
        TrustLevel::Nil => 1,
        TrustLevel::Low => 2,
        TrustLevel::Medium => 3,
        TrustLevel::High => 4,
    }
}

/// The name of a trust level as it is written in proofs and shown.
pub open spec fn trust_level_text(t: TrustLevel) -> Seq<char> {
    match t {
        TrustLevel::Distrust => "distrust"@,
        TrustLevel::Nil => "none"@,
        TrustLevel::Low => "low"@,
        TrustLevel::Medium => "medium"@,
        TrustLevel::High => "high"@,
    }
}

/// The trust level a text names on the command line: its name, or
/// `untrust` for `none`.
pub open spec fn trust_level_from_text(s: Seq<char>) -> Option<TrustLevel> {
    if s == "none"@ || s == "untrust"@ {
        Some(TrustLevel::Nil)
    } else if s == "low"@ {
        Some(TrustLevel::Low)
    } else if s == "medium"@ {
        Some(TrustLevel::Medium)
    } else if s == "high"@ {
        Some(TrustLevel::High)
    } else if s == "distrust"@ {
        Some(TrustLevel::Distrust)
    } else {
        None
    }
}

/// The trust level of the same name as a level.
pub open spec fn trust_level_of(l: Level) -> TrustLevel {
    match l {
        Level::Nil => TrustLevel::Nil,
        Level::Low => TrustLevel::Low,
        Level::Medium => TrustLevel::Medium,
        Level::High => TrustLevel::High,
    }
}

impl Default for TrustLevel {
    fn default() -> (t: Self)
        ensures
            t == TrustLevel::Medium,
    {
        TrustLevel::Medium
    }
}

/// A text that names no trust level.
#[derive(Debug)]
pub struct FromStrErr;

impl TrustLevel {
    /// The name of the trust level (see [`trust_level_text`]).
    pub fn as_str(&self) -> (s: &'static str)
        ensures
            s@ == trust_level_text(*self),
    {
        match self {
            TrustLevel::Distrust => "distrust",
            TrustLevel::Nil => "none",
            TrustLevel::Low => "low",
            TrustLevel::Medium => "medium",
            TrustLevel::High => "high",
        }
    }

    /// The trust level named by `s` (see [`trust_level_from_text`]).
    pub fn parse(s: &str) -> (r: Result<TrustLevel, FromStrErr>)
        ensures
            r matches Ok(t) ==> trust_level_from_text(s@) == Some(t),
            r is Err ==> trust_level_from_text(s@) is None,
    {
        if str_eq(s, "none") || str_eq(s, "untrust") {
            Ok(TrustLevel::Nil)
        } else if str_eq(s, "low") {
            Ok(TrustLevel::Low)
        } else if str_eq(s, "medium") {
            Ok(TrustLevel::Medium)
        } else if str_eq(s, "high") {
            Ok(TrustLevel::High)
        } else if str_eq(s, "distrust") {
            Ok(TrustLevel::Distrust)
        } else {
            Err(FromStrErr)
        }
    }

    /// The trust level whose name is exactly `s`; any other text is an
    /// unknown level.
    pub fn from_name(s: &str) -> (r: Result<TrustLevel, Error>)
        ensures
            r matches Ok(t) ==> trust_level_text(t) == s@,
            r matches Err(e) ==> e matches Error::UnknownLevel(m) && m@ == s@,
            r is Err ==> forall|t: TrustLevel| trust_level_text(t) != s@,
    {
        proof {
            reveal_strlit("distrust");
            reveal_strlit("none");
            reveal_strlit("low");
            reveal_strlit("medium");
            reveal_strlit("high");
        }
        if str_eq(s, "distrust") {
            Ok(TrustLevel::Distrust)
        } else if str_eq(s, "none") {
            Ok(TrustLevel::Nil)
        } else if str_eq(s, "low") {
            Ok(TrustLevel::Low)
        } else if str_eq(s, "medium") {
            Ok(TrustLevel::Medium)
        } else if str_eq(s, "high") {
            Ok(TrustLevel::High)
        } else {
            Err(Error::UnknownLevel(String::from_str(s)))
        }
    }

    /// Does `self` come before `other` (see [`trust_level_rank`])?
    pub fn is_below(&self, other: &TrustLevel) -> (r: bool)
        ensures
            r == (trust_level_rank(*self) < trust_level_rank(*other)),
    {
        self.rank() < other.rank()
    }

    fn rank(&self) -> (r: u8)
        ensures
            r == trust_level_rank(*self),
    {
        match self {
            TrustLevel::Distrust => 0,
            TrustLevel::Nil => 1,
            TrustLevel::Low => 2,
            TrustLevel::Medium => 3,
            TrustLevel::High => 4,
        }
    }
}

impl std::str::FromStr for TrustLevel {
    type Err = FromStrErr;

    /// The value named by `s` (see [`trust_level_from_text`]); an error where `s` names
    /// none.
    fn from_str(s: &str) -> (r: Result<TrustLevel, FromStrErr>)
        ensures
            r matches Ok(v) ==> trust_level_from_text(s@) == Some(v),
            r is Err ==> trust_level_from_text(s@) is None,
    {
        TrustLevel::parse(s)
    }
}

impl From<Level> for TrustLevel {
    fn from(l: Level) -> (t: TrustLevel)
        ensures
            t == trust_level_of(l),
    {
        match l {
            Level::Nil => TrustLevel::Nil,
            Level::Low => TrustLevel::Low,
            Level::Medium => TrustLevel::Medium,
            Level::High => TrustLevel::High,
        }
    }
}

impl vstd::std_specs::convert::FromSpecImpl<Level> for TrustLevel {
    open spec fn obeys_from_spec() -> bool {
        true
    }

    open spec fn from_spec(l: Level) -> TrustLevel {
        trust_level_of(l)
    }
}

/// The name of a trust level reads back as that trust level, by name and on
/// the command line.
pub proof fn lemma_trust_level_text_roundtrip(t: TrustLevel)
    ensures
        trust_level_from_text(trust_level_text(t)) == Some(t),
{
    reveal_strlit("distrust");
    reveal_strlit("none");
    reveal_strlit("untrust");
    reveal_strlit("low");
    reveal_strlit("medium");
    reveal_strlit("high");
    assert("distrust"@[0] == 'd' && "untrust"@[0] == 'u' && "none"@[0] == 'n');
    assert("high"@[0] == 'h' && "low"@[0] == 'l' && "medium"@[0] == 'm');
}

/// A level becomes the trust level of the same name, and the order of levels
/// is kept.
pub proof fn lemma_trust_level_of_level(a: Level, b: Level)
    ensures
        trust_level_text(trust_level_of(a)) == level_text(a),
        level_rank(a) < level_rank(b) <==> trust_level_rank(trust_level_of(a))
            < trust_level_rank(trust_level_of(b)),
        trust_level_of(a) == trust_level_of(b) ==> a == b,
{
}

/// An id whose trust a proof overrides, with a comment.
#[derive(Debug)]
pub struct OverrideItem {
    pub id: PublicId,
    pub comment: String,
}

/// Like [`OverrideItem`], for interactive editing.
#[derive(Debug)]
pub struct OverrideItemDraft {
    pub id: PublicId,
    pub comment: String,
}

/// An override as values: the id and the comment.
pub type OverrideView = (PublicIdView, Seq<char>);

impl View for OverrideItem {
    type V = OverrideView;

    open spec fn view(&self) -> OverrideView {
        (self.id@, self.comment@)
    }
}

impl View for OverrideItemDraft {
    type V = OverrideView;

    open spec fn view(&self) -> OverrideView {
        (self.id@, self.comment@)
    }
}

impl Clone for OverrideItem {
    fn clone(&self) -> (r: Self)
        ensures
            r@ == self@,
    {
        OverrideItem { id: self.id.clone(), comment: self.comment.clone() }
    }
}

impl Clone for OverrideItemDraft {
    fn clone(&self) -> (r: Self)
        ensures
            r@ == self@,
    {
        OverrideItemDraft { id: self.id.clone(), comment: self.comment.clone() }
    }
}

impl From<OverrideItem> for OverrideItemDraft {
    fn from(o: OverrideItem) -> (d: OverrideItemDraft)
        ensures
            d@ == o@,
    {
        OverrideItemDraft { id: o.id, comment: o.comment }
    }
}

impl vstd::std_specs::convert::FromSpecImpl<OverrideItem> for OverrideItemDraft {
    open spec fn obeys_from_spec() -> bool {
        true
    }

    open spec fn from_spec(o: OverrideItem) -> OverrideItemDraft {
        OverrideItemDraft { id: o.id, comment: o.comment }
    }
}

impl From<OverrideItemDraft> for OverrideItem {
    fn from(d: OverrideItemDraft) -> (o: OverrideItem)
        ensures
            o@ == d@,
    {
        OverrideItem { id: d.id, comment: d.comment }
    }
}

impl vstd::std_specs::convert::FromSpecImpl<OverrideItemDraft> for OverrideItem {
    open spec fn obeys_from_spec() -> bool {
        true
    }

    open spec fn from_spec(d: OverrideItemDraft) -> OverrideItem {
        OverrideItem { id: d.id, comment: d.comment }
    }
}

/// The views of a sequence of overrides.
pub open spec fn overrides_view(v: Seq<OverrideItem>) -> Seq<OverrideView> {
    v.map_values(|o: OverrideItem| o@)
}

/// The views of a sequence of override drafts.
pub open spec fn override_drafts_view(v: Seq<OverrideItemDraft>) -> Seq<OverrideView> {
    v.map_values(|o: OverrideItemDraft| o@)
}

/// The views of a sequence of public ids.
pub open spec fn public_ids_view(v: Seq<PublicId>) -> Seq<PublicIdView> {
    v.map_values(|p: PublicId| p@)
}

/// The overrides as drafts, in order.
pub fn overrides_to_drafts(v: &Vec<OverrideItem>) -> (r: Vec<OverrideItemDraft>)
    ensures
        override_drafts_view(r@) == overrides_view(v@),
{
    let mut r: Vec<OverrideItemDraft> = Vec::new();
    let mut i: usize = 0;
    while i < v.len()
        invariant
            i <= v.len(),
            override_drafts_view(r@) == overrides_view(v@.take(i as int)),
        decreases v.len() - i,
    {
        let o = v[i].clone();
        r.push(OverrideItemDraft::from(o));
        i = i + 1;
        assert(overrides_view(v@.take(i as int)) =~= overrides_view(v@.take(i - 1)).push(
            v@[i - 1]@,
        ));
        assert(override_drafts_view(r@) =~= overrides_view(v@.take(i as int)));
    }
    assert(v@.take(v.len() as int) == v@);
    r
}

/// The override drafts as overrides, in order.
pub fn drafts_to_overrides(v: &Vec<OverrideItemDraft>) -> (r: Vec<OverrideItem>)
    ensures
        overrides_view(r@) == override_drafts_view(v@),
{
    let mut r: Vec<OverrideItem> = Vec::new();
    let mut i: usize = 0;
    while i < v.len()
        invariant
            i <= v.len(),
            overrides_view(r@) == override_drafts_view(v@.take(i as int)),
        decreases v.len() - i,
    {
        let o = v[i].clone();
        r.push(OverrideItem::from(o));
        i = i + 1;
        assert(override_drafts_view(v@.take(i as int)) =~= override_drafts_view(
            v@.take(i - 1),
        ).push(v@[i - 1]@));
        assert(overrides_view(r@) =~= override_drafts_view(v@.take(i as int)));
    }
    assert(v@.take(v.len() as int) == v@);
    r
}

/// The serialization version of trust proofs written now.
pub const CURRENT_TRUST_PROOF_SERIALIZATION_VERSION: i64 = -1;

/// The serialization version of trust proofs written now.
pub fn cur_version() -> (v: i64)
    ensures
        v == CURRENT_TRUST_PROOF_SERIALIZATION_VERSION,
{
    CURRENT_TRUST_PROOF_SERIALIZATION_VERSION
}

/// The body of a trust proof.
#[derive(Debug)]
pub struct Trust {
    pub common: Common,
    pub ids: Vec<PublicId>,
    pub trust: TrustLevel,
    pub comment: String,
    pub override_: Vec<OverrideItem>,
}

/// A trust proof as values.
pub struct TrustView {
    pub common: CommonView,
    pub ids: Seq<PublicIdView>,
    pub trust: TrustLevel,
    pub comment: Seq<char>,
    pub override_: Seq<OverrideView>,
}

impl View for Trust {
    type V = TrustView;

    open spec fn view(&self) -> TrustView {
        TrustView {
            common: self.common@,
            ids: public_ids_view(self.ids@),
            trust: self.trust,
            comment: self.comment@,
            override_: overrides_view(self.override_@),
        }
    }
}

/// The kind of trust proofs.
pub open spec fn trust_kind() -> Seq<char> {
    "trust"@
}

/// A trust proof's data is valid when its kind (`trust` where the body names
/// none) is `trust`.
pub open spec fn trust_valid(t: TrustView) -> bool {
    kind_or(t.common.kind, trust_kind()) == trust_kind()
}

/// The part of a trust proof that is edited interactively.
pub open spec fn trust_draft_of(t: TrustView) -> (TrustLevel, Seq<char>, Seq<OverrideView>) {
    (t.trust, t.comment, t.override_)
}

/// A trust proof with the edited part replaced by a draft.
pub open spec fn trust_with_draft(t: TrustView, d: (TrustLevel, Seq<char>, Seq<OverrideView>)) -> TrustView {
    TrustView { trust: d.0, comment: d.1, override_: d.2, ..t }
}

/// The ids of a trust proof, cloned.
fn clone_ids(v: &Vec<PublicId>) -> (r: Vec<PublicId>)
    ensures
        public_ids_view(r@) == public_ids_view(v@),
{
    let mut r: Vec<PublicId> = Vec::new();
    let mut i: usize = 0;
    while i < v.len()
        invariant
            i <= v.len(),
            public_ids_view(r@) == public_ids_view(v@.take(i as int)),
        decreases v.len() - i,
    {
        r.push(v[i].clone());
        i = i + 1;
        assert(public_ids_view(v@.take(i as int)) =~= public_ids_view(v@.take(i - 1)).push(
            v@[i - 1]@,
        ));
        assert(public_ids_view(r@) =~= public_ids_view(v@.take(i as int)));
    }
    assert(v@.take(v.len() as int) == v@);
    r
}

impl Clone for Trust {
    fn clone(&self) -> (r: Self)
        ensures
            r@ == self@,
    {
        let o = overrides_to_drafts(&self.override_);
        let override_ = drafts_to_overrides(&o);
        Trust {
            common: self.common.clone(),
            ids: clone_ids(&self.ids),
            trust: self.trust,
            comment: self.comment.clone(),
            override_,
        }
    }
}

impl Trust {
    pub const KIND: &'static str = "trust";

    /// The kind of the proof; `trust` where the body names none.
    pub fn kind(&self) -> (k: &str)
        ensures
            k@ == kind_or(self@.common.kind, trust_kind()),
    {
        kind_or_default(&self.common, "trust")
    }

    /// Sets the date of the proof to now.
    pub fn touch_date(&mut self)
        ensures
            final(self)@ == (TrustView {
                common: CommonView { date: final(self).common.date, ..old(self)@.common },
                ..old(self)@
            }),
            final(self).common.date.wf(),
    {
        self.common.date = now();
    }

    /// Checks the data of the proof (see [`trust_valid`]).
    pub fn validate_data(&self) -> (r: Result<(), ValidationError>)
        ensures
            r is Ok <==> trust_valid(self@),
            r matches Err(e) ==> e matches ValidationError::InvalidKind(a, b) && a@ == kind_or(
                self@.common.kind,
                trust_kind(),
            ) && b@ == trust_kind(),
    {
        ensure_kind_or_default_is(&self.common, "trust", "trust")
    }

    /// The title of the draft of this proof: who is trusted.
    pub fn draft_title(&self) -> (s: String)
        requires
            self.ids.len() > 0 ==> 4 * (self.ids[0].id@.len() / 3) + 3 <= usize::MAX,
        ensures
            s@ == trust_draft_title(self@),
    {
        let n = self.ids.len();
        if n == 0 {
            return String::from_str("Trust for noone?!");
        }
        let mut s = String::from_str("Trust for ");
        let first = &self.ids[0];
        let id = first.id.to_string();
        push_str(&mut s, id.as_str());
        s.push(' ');
        push_str(&mut s, first.url_display());
        if n > 1 {
            push_str(&mut s, " and ");
            push_decimal(&mut s, (n - 1) as u64);
            push_str(&mut s, " other");
        }
        assert(s@ =~= trust_draft_title(self@));
        s
    }

    /// The proof with the edited part taken from `draft`, if the result is
    /// valid.
    pub fn apply_draft(&self, draft: TrustDraft) -> (r: Result<Trust, Error>)
        ensures
            r matches Ok(t) ==> t@ == trust_with_draft(self@, draft@),
            r is Ok <==> trust_valid(trust_with_draft(self@, draft@)),
            r matches Err(e) ==> e matches Error::Validation(ValidationError::InvalidKind(a, b))
                && a@ == kind_or(self@.common.kind, trust_kind()) && b@ == trust_kind(),
    {
        let mut copy = self.clone();
        copy.trust = draft.trust;
        copy.comment = draft.comment;
        copy.override_ = drafts_to_overrides(&draft.override_);
        match copy.validate_data() {
            Ok(()) => Ok(copy),
            Err(e) => Err(Error::Validation(e)),
        }
    }
}

/// The title of the draft of a trust proof.
pub open spec fn trust_draft_title(t: TrustView) -> Seq<char> {
    if t.ids.len() == 0 {
        "Trust for noone?!"@
    } else {
        let first = t.ids[0];
        let url = match first.1 {
            Some(u) => u.0,
            None => "(no url)"@,
        };
        "Trust for "@ + crate::common::base64_url_nopad(first.0) + seq![' '] + url + if t.ids.len()
            > 1 {
            " and "@ + crate::text::decimal((t.ids.len() - 1) as nat) + " other"@
        } else {
            Seq::empty()
        }
    }
}

/// Like [`Trust`], but only what is edited interactively.
#[derive(Debug)]
pub struct TrustDraft {
    pub trust: TrustLevel,
    pub comment: String,
    pub override_: Vec<OverrideItemDraft>,
}

impl View for TrustDraft {
    type V = (TrustLevel, Seq<char>, Seq<OverrideView>);

    open spec fn view(&self) -> (TrustLevel, Seq<char>, Seq<OverrideView>) {
        (self.trust, self.comment@, override_drafts_view(self.override_@))
    }
}

impl TrustDraft {
    /// The draft of a trust proof.
    pub fn from(trust: Trust) -> (d: TrustDraft)
        ensures
            d@ == trust_draft_of(trust@),
    {
        let override_ = overrides_to_drafts(&trust.override_);
        TrustDraft { trust: trust.trust, comment: trust.comment, override_ }
    }
}

/// Applying the draft of a valid trust proof gives the same proof back.
pub proof fn lemma_trust_draft_roundtrip(t: TrustView)
    requires
        trust_valid(t),
    ensures
        trust_with_draft(t, trust_draft_of(t)) == t,
        trust_valid(trust_with_draft(t, trust_draft_of(t))),
{
}

/// Builds a [`Trust`] field by field; `common` and `ids` must be set, the
/// others have defaults.
#[derive(Debug)]
pub struct TrustBuilder {
    pub common: Option<Common>,
    pub ids: Option<Vec<PublicId>>,
    pub trust: Option<TrustLevel>,
    pub comment: Option<String>,
    pub override_: Option<Vec<OverrideItem>>,
}

impl Default for TrustBuilder {
    fn default() -> (b: Self)
        ensures
            b.common is None && b.ids is None && b.trust is None && b.comment is None
                && b.override_ is None,
    {
        TrustBuilder { common: None, ids: None, trust: None, comment: None, override_: None }
    }
}

/// The common part that a builder starts a proof with: its kind, the
/// current serialization version, no reference to an original.
pub open spec fn fresh_common(c: CommonView, kind: Seq<char>, version: i64, from: PublicIdView) -> bool {
    &&& c.kind == Some(kind)
    &&& c.version == version
    &&& c.from == from
    &&& c.original is None
    &&& c.date.wf()
}

impl TrustBuilder {
    /// Sets the author: in the common part if there is one, else in a new
    /// common part dated now.
    pub fn from(&mut self, value: PublicId) -> (r: &mut Self)
        ensures
            match old(self).common {
                Some(c) => r.common matches Some(n) && n@ == CommonView { from: value@, ..c@ },
                None => r.common matches Some(n) && fresh_common(
                    n@,
                    trust_kind(),
                    CURRENT_TRUST_PROOF_SERIALIZATION_VERSION,
                    value@,
                ),
            },
            r.ids == old(self).ids,
            r.trust == old(self).trust,
            r.comment == old(self).comment,
            r.override_ == old(self).override_,
            *final(self) == *final(r),
    {
        match &mut self.common {
            Some(common) => {
                common.from = value;
            },
            None => {
                self.common = Some(
                    Common {
                        kind: Some(String::from_str("trust")),
                        version: cur_version(),
                        date: now(),
                        from: value,
                        original: None,
                    },
                );
            },
        }
        self
    }

    pub fn ids(&mut self, value: Vec<PublicId>) -> (r: &mut Self)
        ensures
            *r == (TrustBuilder { ids: Some(value), ..*old(self) }),
            *final(self) == *final(r),
    {
        self.ids = Some(value);
        self
    }

    pub fn trust(&mut self, value: TrustLevel) -> (r: &mut Self)
        ensures
            *r == (TrustBuilder { trust: Some(value), ..*old(self) }),
            *final(self) == *final(r),
    {
        self.trust = Some(value);
        self
    }

    pub fn comment(&mut self, value: String) -> (r: &mut Self)
        ensures
            *r == (TrustBuilder { comment: Some(value), ..*old(self) }),
            *final(self) == *final(r),
    {
        self.comment = Some(value);
        self
    }

    pub fn override_(&mut self, value: Vec<OverrideItem>) -> (r: &mut Self)
        ensures
            *r == (TrustBuilder { override_: Some(value), ..*old(self) }),
            *final(self) == *final(r),
    {
        self.override_ = Some(value);
        self
    }

    /// The proof, from copies of the fields set; an error names the first of
    /// `common` and `ids` that is not set.
    pub fn build(&self) -> (r: Result<Trust, Error>)
        ensures
            r is Ok <==> self.common is Some && self.ids is Some,
            r matches Err(e) ==> e matches Error::BuildingProof(m) && m@ == (if self.common is None {
                "`common` must be initialized"@
            } else {
                "`ids` must be initialized"@
            }),
            r matches Ok(t) ==> t@ == (TrustView {
                common: self.common.unwrap()@,
                ids: public_ids_view(self.ids.unwrap()@),
                trust: match self.trust {
                    Some(l) => l,
                    None => TrustLevel::Medium,
                },
                comment: match self.comment {
                    Some(c) => c@,
                    None => Seq::empty(),
                },
                override_: match self.override_ {
                    Some(o) => overrides_view(o@),
                    None => Seq::empty(),
                },
            }),
    {
        let common = match &self.common {
            Some(c) => c.clone(),
            None => {
                return Err(Error::BuildingProof(String::from_str("`common` must be initialized")));
            },
        };
        let ids = match &self.ids {
            Some(v) => clone_ids(v),
            None => {
                return Err(Error::BuildingProof(String::from_str("`ids` must be initialized")));
            },
        };
        let trust = match self.trust {
            Some(l) => l,
            None => TrustLevel::default(),
        };
        let comment = match &self.comment {
            Some(c) => c.clone(),
            None => String::new(),
        };
        let override_ = match &self.override_ {
            Some(o) => {
                let d = overrides_to_drafts(o);
                drafts_to_overrides(&d)
            },
            None => Vec::new(),
        };
        let t = Trust { common, ids, trust, comment, override_ };
        assert(overrides_view(t.override_@) =~= match self.override_ {
            Some(o) => overrides_view(o@),
            None => Seq::empty(),
        });
        Ok(t)
    }
}

impl PublicId {
    /// A trust proof by this id, dated now, for the ids `ids` at `trust_level`.
    pub fn create_trust_proof(&self, ids: &Vec<PublicId>, trust_level: TrustLevel) -> (r: Result<
        Trust,
        Error,
    >)
        ensures
            r matches Ok(t) && fresh_common(
                t@.common,
                trust_kind(),
                CURRENT_TRUST_PROOF_SERIALIZATION_VERSION,
                self@,
            ) && t@.ids == public_ids_view(ids@) && t@.trust == trust_level && t@.comment
                == Seq::<char>::empty() && t@.override_ == Seq::<OverrideView>::empty(),
    {
        let mut b = TrustBuilder::default();
        b.from(self.clone()).trust(trust_level).ids(clone_ids(ids));
        b.build()
    }
}

} // verus!
