//! Signed proofs: the common header of every proof body, and the proof as a
//! body with its signature.
use vstd::prelude::*;
use crate::common::{base64_encode, base64_url_nopad, blake2b256, blake2b256sum};
use crate::error::{Error, ValidationError};
use crate::framing::{
    frames_of, initial_model, parse_text, parts_views, proof_end, proof_signature, proof_start,
    run_panics, PartsModel, ProofParser,
};
use crate::id::{signature_check, Id, IdError, PublicId, PublicIdView, UnlockedId};
use crate::text::{
    chars_of, join_lines, lemma_join_lines_push, lemma_join_lines_split, lemma_lines_from_line,
    lemma_lines_append, lemma_lines_join, lemma_trim_line_end, lemma_utf8_concat, lines, lines_from, plain_line, push_str, str_eq,
    string_from_chars, strip_cr, trim, trim_chars, trim_end, trim_start,
};
use crate::framing::{
    legacy_end_name, legacy_end_prefix, legacy_signature_name, legacy_signature_suffix,
    legacy_start_prefix, legacy_start_suffix,
    byte_len, lemma_run_append, legacy_start_name, line_panics, run, step, ParserModel, Stage,
};

verus! {

/// A point in time with the UTC offset it was recorded in
/// (`chrono::DateTime<FixedOffset>`): seconds since the Unix epoch, the
/// nanoseconds past that second, and the offset east of UTC in seconds.
#[derive(Debug, Clone, Copy, PartialEq, Eq, Structural)]
pub struct Date {
    pub timestamp: i64,
    pub nanos: u32,
    pub offset_seconds: i32,
}

/// A point in time in UTC (`chrono::DateTime<Utc>`).
#[derive(Debug, Clone, Copy, PartialEq, Eq, Structural)]
pub struct DateUtc {
    pub timestamp: i64,
    pub nanos: u32,
}

impl Date {
    /// A valid date: nanoseconds below two seconds (chrono keeps a leap second
    /// there) and an offset of less than a day.
    pub open spec fn wf(&self) -> bool {
        &&& self.nanos < 2_000_000_000
        &&& -86_400 < self.offset_seconds < 86_400
    }

    /// The same instant in UTC.
    pub fn with_timezone_utc(&self) -> (d: DateUtc)
        ensures
            d.timestamp == self.timestamp,
            d.nanos == self.nanos,
    {
        DateUtc { timestamp: self.timestamp, nanos: self.nanos }
    }
}

/// Calls `chrono::offset::Local::now()` and keeps its offset
/// (`with_timezone(date.offset())`). Claimed: a valid date; its value comes
/// from the system clock and time zone, so nothing else is said.
#[verifier::external_body]
pub fn now() -> (d: Date)
    ensures
        d.wf(),
{
    let date = chrono::offset::Local::now();
    let fixed = date.with_timezone(date.offset());
    Date {
        timestamp: fixed.timestamp(),
        nanos: fixed.timestamp_subsec_nanos(),
        offset_seconds: chrono::Offset::fix(fixed.offset()).local_minus_utc(),
    }
}

/// Reference to the original proof when a proof is reissued.
#[derive(Debug, PartialEq, Eq)]
pub struct OriginalReference {
    /// digest (blake2b256) of the original proof
    pub proof: Vec<u8>,
    pub comment: String,
}

impl View for OriginalReference {
    type V = (Seq<u8>, Seq<char>);

    open spec fn view(&self) -> (Seq<u8>, Seq<char>) {
        (self.proof@, self.comment@)
    }
}

impl Clone for OriginalReference {
    fn clone(&self) -> (r: Self)
        ensures
            r@ == self@,
    {
        let p = self.proof.clone();
        assert(p@ =~= self.proof@);
        OriginalReference { proof: p, comment: self.comment.clone() }
    }
}

/// The common part of every proof body.
#[derive(Debug)]
pub struct Common {
    pub kind: Option<String>,
    /// A version, to allow future backward-incompatible extensions and changes.
    pub version: i64,
    /// Timestamp of proof creation
    pub date: Date,
    /// Author of the proof
    pub from: PublicId,
    /// Reference to original proof when reissuing
    pub original: Option<OriginalReference>,
}

/// The common part of a proof as values.
pub struct CommonView {
    pub kind: Option<Seq<char>>,
    pub version: i64,
    pub date: Date,
    pub from: PublicIdView,
    pub original: Option<(Seq<u8>, Seq<char>)>,
}

impl View for Common {
    type V = CommonView;

    open spec fn view(&self) -> CommonView {
        CommonView {
            kind: match self.kind {
                Some(k) => Some(k@),
                None => None,
            },
            version: self.version,
            date: self.date,
            from: self.from@,
            original: match self.original {
                Some(o) => Some(o@),
                None => None,
            },
        }
    }
}

impl Clone for Common {
    fn clone(&self) -> (r: Self)
        ensures
            r@ == self@,
    {
        let kind = match &self.kind {
            Some(k) => Some(k.clone()),
            None => None,
        };
        let original = match &self.original {
            Some(o) => Some(o.clone()),
            None => None,
        };
        Common { kind, version: self.version, date: self.date, from: self.from.clone(), original }
    }
}

impl Common {
    /// The kind of proof (`package review`, `trust`, ...).
    pub fn kind(&self) -> (k: &str)
        requires
            self.kind is Some,
        ensures
            k@ == self.kind.unwrap()@,
    {
        self.kind.as_ref().unwrap().as_str()
    }

    pub fn from(&self) -> (p: &PublicId)
        ensures
            *p == self.from,
    {
        &self.from
    }

    pub fn date(&self) -> (d: &Date)
        ensures
            *d == self.date,
    {
        &self.date
    }

    pub fn date_utc(&self) -> (d: DateUtc)
        ensures
            d.timestamp == self.date.timestamp && d.nanos == self.date.nanos,
    {
        self.date.with_timezone_utc()
    }

    pub fn author_id(&self) -> (i: &Id)
        ensures
            *i == self.from.id,
    {
        &self.from.id
    }

    pub fn author_public_id(&self) -> (p: &PublicId)
        ensures
            *p == self.from,
    {
        &self.from
    }

    /// Checks that the proof is of kind `kind`.
    pub fn ensure_kind_is(&self, kind: &str) -> (r: Result<(), ValidationError>)
        requires
            self.kind is Some,
        ensures
            r matches Err(ValidationError::InvalidKind(a, e)) ==> a@ == self.kind.unwrap()@ && e@
                == kind@,
            r is Ok <==> self.kind.unwrap()@ == kind@,
            r is Err ==> r->Err_0 is InvalidKind,
    {
        let expected = self.kind();
        if !str_eq(expected, kind) {
            return Err(
                ValidationError::InvalidKind(String::from_str(expected), String::from_str(kind)),
            );
        }
        Ok(())
    }
}

pub const MAX_PROOF_BODY_LENGTH: usize = 32000;

/// The kind of a proof: the one its body names, else `default` (bodies in
/// the legacy format name none).
pub open spec fn kind_or(kind: Option<Seq<char>>, default: Seq<char>) -> Seq<char> {
    match kind {
        Some(k) => k,
        None => default,
    }
}

/// The kind of a proof (see [`kind_or`]).
pub fn kind_or_default<'a>(common: &'a Common, default: &'a str) -> (k: &'a str)
    ensures
        k@ == kind_or(common@.kind, default@),
{
    match &common.kind {
        Some(k) => k.as_str(),
        None => default,
    }
}

/// Checks that the kind of a proof (see [`kind_or`]) is `expected`.
pub fn ensure_kind_or_default_is(common: &Common, default: &str, expected: &str) -> (r: Result<
    (),
    ValidationError,
>)
    ensures
        r is Ok <==> kind_or(common@.kind, default@) == expected@,
        r matches Err(e) ==> e matches ValidationError::InvalidKind(a, b) && a@ == kind_or(
            common@.kind,
            default@,
        ) && b@ == expected@,
{
    let k = kind_or_default(common, default);
    if !str_eq(k, expected) {
        return Err(ValidationError::InvalidKind(String::from_str(k), String::from_str(expected)));
    }
    Ok(())
}

/// A signed proof: a serialized body, the signature over it, the common part
/// of the body, and the digest (blake2b256) of the body.
#[derive(Debug, Clone)]
pub struct Proof {
    body: String,
    signature: String,
    common_content: Common,
    digest: [u8; 32],
}

/// The UTF-8 bytes of a text.
pub open spec fn utf8(s: Seq<char>) -> Seq<u8> {
    vstd::utf8::encode_utf8(s)
}

/// The text of a proof: start line, body, signature line, signature, end line.
pub open spec fn proof_text(body: Seq<char>, signature: Seq<char>) -> Seq<char> {
    proof_start() + seq!['\n'] + body + proof_signature() + seq!['\n'] + signature + seq!['\n']
        + proof_end() + seq!['\n']
}

impl Proof {
    pub closed spec fn spec_body(&self) -> Seq<char> {
        self.body@
    }

    pub closed spec fn spec_signature(&self) -> Seq<char> {
        self.signature@
    }

    pub closed spec fn spec_common(&self) -> Common {
        self.common_content
    }

    pub closed spec fn spec_digest(&self) -> Seq<u8> {
        self.digest@
    }

    /// The digest is that of the body.
    pub closed spec fn wf(&self) -> bool {
        self.digest@ == blake2b256(utf8(self.body@))
    }

    /// The digest of a well-formed proof is the BLAKE2b-256 digest of its
    /// body.
    pub proof fn lemma_digest_of_body(&self)
        requires
            self.wf(),
        ensures
            self.spec_digest() == blake2b256(utf8(self.spec_body())),
    {
    }

    /// Two well-formed proofs with the same body (a proof and the proof read
    /// back from its text) have the same digest.
    pub proof fn lemma_same_body_same_digest(&self, other: &Proof)
        requires
            self.wf(),
            other.wf(),
            self.spec_body() == other.spec_body(),
        ensures
            self.spec_digest() == other.spec_digest(),
    {
    }

    /// A proof from a body, its signature, and the common part read from the
    /// body. The body must name its kind.
    pub fn from_parts(body: String, signature: String, common: Common) -> (r: Result<Self, Error>)
        ensures
            r is Err <==> common.kind is None,
            r matches Err(e) ==> e == Error::KindFieldMissing,
            r matches Ok(p) ==> p.wf() && p.spec_body() == body@ && p.spec_signature() == trim(
                signature@,
            ) && p.spec_common() == common,
            r matches Ok(p) ==> p.spec_digest() == blake2b256(utf8(body@)),
    {
        if common.kind.is_none() {
            return Err(Error::KindFieldMissing);
        }
        let digest = blake2b256sum(body.as_str().as_bytes());
        let v = chars_of(signature.as_str());
        let t = trim_chars(v.as_slice());
        let signature = string_from_chars(t.as_slice());
        Ok(Proof { body, signature, common_content: common, digest })
    }

    /// A proof in the legacy format, whose body has no `kind`: the kind is
    /// the type name of its frame.
    pub fn from_legacy_parts(body: String, signature: String, kind_name: String, common: Common) -> (r:
        Result<Self, Error>)
        ensures
            r is Err <==> common.kind is Some,
            r matches Err(e) ==> e == Error::UnexpectedKindValueInALegacyFormat,
            r matches Ok(p) ==> p.wf() && p.spec_body() == body@ && p.spec_signature() == trim(
                signature@,
            ) && p.spec_common() == (Common { kind: Some(kind_name), ..common }),
            r matches Ok(p) ==> p.spec_digest() == blake2b256(utf8(body@)),
    {
        if common.kind.is_some() {
            return Err(Error::UnexpectedKindValueInALegacyFormat);
        }
        let mut common = common;
        common.kind = Some(kind_name);
        let digest = blake2b256sum(body.as_str().as_bytes());
        let v = chars_of(signature.as_str());
        let t = trim_chars(v.as_slice());
        let signature = string_from_chars(t.as_slice());
        Ok(Proof { body, signature, common_content: common, digest })
    }

    pub fn body(&self) -> (s: &str)
        ensures
            s@ == self.spec_body(),
    {
        self.body.as_str()
    }

    pub fn signature(&self) -> (s: &str)
        ensures
            s@ == self.spec_signature(),
    {
        self.signature.as_str()
    }

    pub fn digest(&self) -> (d: &[u8; 32])
        ensures
            d@ == self.spec_digest(),
    {
        &self.digest
    }

    pub fn common(&self) -> (c: &Common)
        ensures
            *c == self.spec_common(),
    {
        &self.common_content
    }

    /// The kind of the proof.
    pub fn kind(&self) -> (k: &str)
        requires
            self.spec_common().kind is Some,
        ensures
            k@ == self.spec_common().kind.unwrap()@,
    {
        self.common_content.kind()
    }

    /// The author of the proof.
    pub fn from(&self) -> (p: &PublicId)
        ensures
            *p == self.spec_common().from,
    {
        &self.common_content.from
    }

    /// The text of the proof (its display form).
    pub fn to_text(&self) -> (s: String)
        ensures
            s@ == proof_text(self.spec_body(), self.spec_signature()),
    {
        proof_text_of(self.body.as_str(), self.signature.as_str())
    }

    /// Checks the signature against the body and the author's id.
    pub fn verify(&self) -> (r: Result<(), Error>)
        requires
            self.spec_signature().len() * 4 + 7 <= usize::MAX,
        ensures
            r == match signature_check(
                self.spec_common().from.id@,
                utf8(self.spec_body()),
                self.spec_signature(),
            ) {
                Ok(()) => Ok::<(), Error>(()),
                Err(e) => Err(Error::Id(e)),
            },
    {
        let pubkey = &self.common_content.from.id;
        match pubkey.verify_signature(self.body.as_str().as_bytes(), self.signature.as_str()) {
            Ok(()) => Ok(()),
            Err(e) => Err(Error::Id(e)),
        }
    }

    /// Signs a serialized body: the signature is the base64 of the Ed25519
    /// signature of the body's bytes, the common part is that of the content
    /// the body was serialized from. A proof whose author is the signing id
    /// passes the signature check.
    pub fn sign_body(body: String, common: Common, id: &UnlockedId) -> (p: Self)
        requires
            id.wf(),
        ensures
            p.wf(),
            p.spec_body() == body@,
            p.spec_digest() == blake2b256(utf8(body@)),
            p.spec_common() == common,
            p.spec_signature() == base64_url_nopad(
                crate::crypto::ed25519_signature_of(id.secret_key@, utf8(body@)),
            ),
            p.spec_signature().len() == 86,
            common.from.id@ == id.id.id@ ==> signature_check(
                common.from.id@,
                utf8(body@),
                p.spec_signature(),
            ) == Ok::<(), IdError>(()),
    {
        let signature = id.sign(body.as_str().as_bytes());
        let digest = blake2b256sum(body.as_str().as_bytes());
        Proof {
            body,
            signature: base64_encode(signature.as_slice()),
            common_content: common,
            digest,
        }
    }
}

/// The text of a proof with this body and signature.
pub fn proof_text_of(body: &str, signature: &str) -> (s: String)
    ensures
        s@ == proof_text(body@, signature@),
{
    let mut s = String::new();
    push_str(&mut s, "----- BEGIN CREV PROOF -----");
    s.push('\n');
    push_str(&mut s, body);
    push_str(&mut s, "----- SIGN CREV PROOF -----");
    s.push('\n');
    push_str(&mut s, signature);
    s.push('\n');
    push_str(&mut s, "----- END CREV PROOF -----");
    s.push('\n');
    assert(s@ =~= proof_text(body@, signature@));
    s
}


/// A body and a signature that the text of a proof gives back unchanged: the
/// body is the lines `ls`, each ended by a line ending, none of them a
/// signature line; the signature is the lines `ss` (at least one) joined by
/// line endings, none of them an end line, and trimming leaves it as it is;
/// and both are within the parser's length limits.
pub open spec fn framable(
    body: Seq<char>,
    signature: Seq<char>,
    ls: Seq<Seq<char>>,
    ss: Seq<Seq<char>>,
) -> bool {
    &&& body == join_lines(ls)
    &&& forall|i: int|
        0 <= i < ls.len() ==> plain_line(#[trigger] ls[i]) && trim(ls[i]) != proof_signature()
    &&& ss.len() >= 1
    &&& signature + seq!['\n'] == join_lines(ss)
    &&& forall|i: int| 0 <= i < ss.len() ==> plain_line(#[trigger] ss[i]) && trim(ss[i]) != proof_end()
    &&& trim(signature) == signature
    &&& byte_len(body) <= MAX_PROOF_BODY_LENGTH
    &&& byte_len(signature) + 1 <= crate::framing::MAX_SIGNATURE_LENGTH
}

/// The parser state while reading the signature of a current-format proof.
pub open spec fn reading_signature(body: Seq<char>, signature: Seq<char>) -> ParserModel {
    ParserModel { stage: Stage::Signature, body, signature, kind_name: None }
}

/// The parser state while reading the body of a current-format proof.
pub open spec fn reading_body(body: Seq<char>) -> ParserModel {
    ParserModel { stage: Stage::Body, body, signature: Seq::empty(), kind_name: None }
}

proof fn lemma_literal_facts()
    ensures
        trim(proof_start()) == proof_start(),
        trim(proof_signature()) == proof_signature(),
        trim(proof_end()) == proof_end(),
        plain_line(proof_start()),
        plain_line(proof_signature()),
        plain_line(proof_end()),
        legacy_start_name(proof_start()) is None,
        proof_start() != "-----BEGIN CREV -----"@,
        proof_start().len() > 0,
        proof_signature() != proof_end(),
{
    reveal_strlit("----- BEGIN CREV PROOF -----");
    reveal_strlit("----- SIGN CREV PROOF -----");
    reveal_strlit("----- END CREV PROOF -----");
    reveal_strlit("-----BEGIN CREV ");
    reveal_strlit("-----BEGIN CREV -----");
    let s = proof_start();
    let g = proof_signature();
    let e = proof_end();
    assert(trim_start(s) == s);
    assert(trim_end(s) == s);
    assert(trim_start(g) == g);
    assert(trim_end(g) == g);
    assert(trim_start(e) == e);
    assert(trim_end(e) == e);
    assert(!s.contains('\n'));
    assert(!g.contains('\n'));
    assert(!e.contains('\n'));
    assert(s.take(16)[5] != "-----BEGIN CREV "@[5]);
    assert(g.len() != e.len() || g[8] != e[8]);
    assert(s.len() != "-----BEGIN CREV -----"@.len());
}

proof fn lemma_text_lines(
    body: Seq<char>,
    signature: Seq<char>,
    ls: Seq<Seq<char>>,
    ss: Seq<Seq<char>>,
)
    requires
        framable(body, signature, ls, ss),
    ensures
        lines(proof_text(body, signature)) == seq![proof_start()] + ls + seq![proof_signature()]
            + ss + seq![proof_end()],
{
    lemma_literal_facts();
    let nl = seq!['\n'];
    let r4 = proof_end() + nl;
    let r3 = signature + nl + r4;
    let r2 = proof_signature() + nl + r3;
    let r1 = body + r2;
    assert(proof_text(body, signature) == proof_start() + nl + r1);
    lemma_lines_from_line(Seq::empty(), proof_start(), r1);
    assert forall|i: int| 0 <= i < ls.len() implies plain_line(#[trigger] ls[i]) by {}
    lemma_lines_join(ls, r2);
    lemma_lines_from_line(Seq::empty(), proof_signature(), r3);
    assert(r3 == join_lines(ss) + r4);
    assert forall|i: int| 0 <= i < ss.len() implies plain_line(#[trigger] ss[i]) by {}
    lemma_lines_join(ss, r4);
    assert(r4 == proof_end() + nl + Seq::<char>::empty());
    lemma_lines_from_line(Seq::empty(), proof_end(), Seq::<char>::empty());
    assert(Seq::<char>::empty() + proof_start() == proof_start());
    assert(Seq::<char>::empty() + proof_signature() == proof_signature());
    assert(Seq::<char>::empty() + proof_end() == proof_end());
    assert(strip_cr(proof_start()) == proof_start());
    assert(strip_cr(proof_signature()) == proof_signature());
    assert(strip_cr(proof_end()) == proof_end());
    assert(lines_from(Seq::empty(), Seq::<char>::empty()) == Seq::<Seq<char>>::empty());
    assert(lines(proof_text(body, signature)) =~= seq![proof_start()] + ls + seq![proof_signature()]
        + ss + seq![proof_end()]);
}

proof fn lemma_run_body(ls: Seq<Seq<char>>, all: Seq<Seq<char>>, k: int)
    requires
        0 <= k <= ls.len(),
        all.len() >= 1 + ls.len(),
        all[0] == proof_start(),
        forall|i: int| 0 <= i < ls.len() ==> all[1 + i] == ls[i],
        forall|i: int|
            0 <= i < ls.len() ==> plain_line(#[trigger] ls[i]) && trim(ls[i]) != proof_signature(),
        byte_len(join_lines(ls)) <= MAX_PROOF_BODY_LENGTH,
    ensures
        run(initial_model(), all.take(1 + k)) == Ok::<(ParserModel, Seq<PartsModel>), Error>(
            (reading_body(join_lines(ls.take(k))), Seq::empty()),
        ),
        !run_panics(initial_model(), all.take(1 + k)),
    decreases k,
{
    lemma_literal_facts();
    if k == 0 {
        let one = all.take(1);
        assert(one.drop_last() == Seq::<Seq<char>>::empty());
        assert(one.last() == proof_start());
        assert(ls.take(0) == Seq::<Seq<char>>::empty());
        assert(trim(proof_start()).len() > 0);
        assert(step(initial_model(), proof_start()) == Ok::<
            (ParserModel, Option<PartsModel>),
            Error,
        >((reading_body(Seq::empty()), None)));
        assert(run(initial_model(), one.drop_last()) == Ok::<
            (ParserModel, Seq<PartsModel>),
            Error,
        >((initial_model(), Seq::empty())));
        assert(join_lines(ls.take(0)) == Seq::<char>::empty());
        assert(!line_panics(initial_model(), proof_start()));
        assert(!run_panics(initial_model(), one.drop_last()));
    } else {
        lemma_run_body(ls, all, k - 1);
        let pre = all.take(k);
        let cur = all.take(1 + k);
        assert(cur.drop_last() == pre);
        assert(cur.last() == ls[k - 1]);
        let b0 = join_lines(ls.take(k - 1));
        let b1 = join_lines(ls.take(k));
        assert(ls.take(k) == ls.take(k - 1).push(ls[k - 1]));
        lemma_join_lines_push(ls.take(k - 1), ls[k - 1]);
        assert(b1 == b0 + ls[k - 1] + seq!['\n']);
        lemma_join_lines_split(ls, k);
        lemma_utf8_concat(b1, join_lines(ls.skip(k)));
        assert(byte_len(b1) <= byte_len(join_lines(ls)));
        assert(trim(ls[k - 1]) != proof_signature());
        assert(!line_panics(reading_body(b0), ls[k - 1]));
        assert(step(reading_body(b0), ls[k - 1]) == Ok::<
            (ParserModel, Option<PartsModel>),
            Error,
        >((reading_body(b1), None)));
    }
}

proof fn lemma_run_signature(
    body: Seq<char>,
    ss: Seq<Seq<char>>,
    all: Seq<Seq<char>>,
    n: int,
    k: int,
)
    requires
        0 <= n,
        0 <= k <= ss.len(),
        all.len() >= n + ss.len(),
        run(initial_model(), all.take(n)) == Ok::<(ParserModel, Seq<PartsModel>), Error>(
            (reading_signature(body, Seq::empty()), Seq::empty()),
        ),
        !run_panics(initial_model(), all.take(n)),
        forall|i: int| 0 <= i < ss.len() ==> all[n + i] == ss[i],
        forall|i: int| 0 <= i < ss.len() ==> trim(#[trigger] ss[i]) != proof_end(),
        byte_len(join_lines(ss)) <= crate::framing::MAX_SIGNATURE_LENGTH,
    ensures
        run(initial_model(), all.take(n + k)) == Ok::<(ParserModel, Seq<PartsModel>), Error>(
            (reading_signature(body, join_lines(ss.take(k))), Seq::empty()),
        ),
        !run_panics(initial_model(), all.take(n + k)),
    decreases k,
{
    if k == 0 {
        assert(ss.take(0) == Seq::<Seq<char>>::empty());
        assert(join_lines(ss.take(0)) == Seq::<char>::empty());
        assert(all.take(n + 0) == all.take(n));
    } else {
        lemma_run_signature(body, ss, all, n, k - 1);
        let pre = all.take(n + k - 1);
        let cur = all.take(n + k);
        assert(cur.drop_last() == pre);
        assert(cur.last() == ss[k - 1]);
        let s0 = join_lines(ss.take(k - 1));
        let s1 = join_lines(ss.take(k));
        assert(ss.take(k) == ss.take(k - 1).push(ss[k - 1]));
        lemma_join_lines_push(ss.take(k - 1), ss[k - 1]);
        assert(s1 == s0 + ss[k - 1] + seq!['\n']);
        lemma_join_lines_split(ss, k);
        lemma_utf8_concat(s1, join_lines(ss.skip(k)));
        assert(byte_len(s1) <= byte_len(join_lines(ss)));
        assert(trim(ss[k - 1]) != proof_end());
        assert(!line_panics(reading_signature(body, s0), ss[k - 1]));
        assert(step(reading_signature(body, s0), ss[k - 1]) == Ok::<
            (ParserModel, Option<PartsModel>),
            Error,
        >((reading_signature(body, s1), None)));
    }
}

/// The text of a proof reads back as exactly that proof: one frame, with the
/// same body and the signature (plus the line ending that trimming removes
/// again); and no line of it is one the parser panics on.
pub proof fn lemma_proof_text_frames_back(
    body: Seq<char>,
    signature: Seq<char>,
    ls: Seq<Seq<char>>,
    ss: Seq<Seq<char>>,
)
    requires
        framable(body, signature, ls, ss),
    ensures
        !run_panics(initial_model(), lines(proof_text(body, signature))),
        frames_of(lines(proof_text(body, signature))) == Ok::<Seq<PartsModel>, Error>(
            seq![PartsModel { body, signature: signature + seq!['\n'], legacy_type: None }],
        ),
        run(initial_model(), lines(proof_text(body, signature))) == Ok::<
            (ParserModel, Seq<PartsModel>),
            Error,
        >(
            (
                initial_model(),
                seq![PartsModel { body, signature: signature + seq!['\n'], legacy_type: None }],
            ),
        ),
        trim(signature + seq!['\n']) == signature,
{
    lemma_literal_facts();
    lemma_text_lines(body, signature, ls, ss);
    let all = seq![proof_start()] + ls + seq![proof_signature()] + ss + seq![proof_end()];
    let n: int = ls.len() as int;
    let m: int = ss.len() as int;
    assert forall|i: int| 0 <= i < n implies all[1 + i] == ls[i] by {}
    lemma_run_body(ls, all, n);
    assert(ls.take(n) == ls);
    let st1 = reading_body(body);
    // the signature line
    let a2 = all.take(n + 2);
    assert(a2.drop_last() == all.take(1 + n));
    assert(a2.last() == proof_signature());
    let st2 = reading_signature(body, Seq::empty());
    assert(step(st1, proof_signature()) == Ok::<(ParserModel, Option<PartsModel>), Error>(
        (st2, None),
    ));
    assert(run(initial_model(), a2) == Ok::<(ParserModel, Seq<PartsModel>), Error>(
        (st2, Seq::<PartsModel>::empty()),
    ));
    assert(!line_panics(st1, proof_signature()));
    assert(!run_panics(initial_model(), a2));
    // the lines of the signature
    lemma_utf8_concat(signature, seq!['\n']);
    reveal_strlit("\n");
    assert(vstd::utf8::encode_utf8(seq!['\n']).len() == 1) by {
        let nl = seq!['\n'];
        assert(nl[0] == '\n');
        assert(nl.drop_first() == Seq::<char>::empty());
        assert(vstd::utf8::encode_utf8(nl.drop_first()) == Seq::<u8>::empty());
        assert(('\n' as u32) == 10u32);
        assert(vstd::utf8::encode_scalar(10u32).len() == 1);
    }
    assert(byte_len(join_lines(ss)) <= crate::framing::MAX_SIGNATURE_LENGTH);
    assert forall|i: int| 0 <= i < m implies all[n + 2 + i] == ss[i] by {}
    assert forall|i: int| 0 <= i < m implies trim(#[trigger] ss[i]) != proof_end() by {}
    lemma_run_signature(body, ss, all, n + 2, m);
    assert(ss.take(m) == ss);
    let sig1 = signature + seq!['\n'];
    let st3 = reading_signature(body, sig1);
    let a3 = all.take(n + 2 + m);
    assert(!line_panics(st3, proof_end()));
    // the end line
    let a4 = all.take(n + 3 + m);
    assert(a4.drop_last() == a3);
    assert(a4.last() == proof_end());
    assert(a4 == all);
    let parts = PartsModel { body, signature: sig1, legacy_type: None };
    assert(byte_len(Seq::<char>::empty()) == 0);
    assert(step(st3, proof_end()) == Ok::<(ParserModel, Option<PartsModel>), Error>(
        (initial_model(), Some(parts)),
    ));
    assert(run(initial_model(), all) == Ok::<(ParserModel, Seq<PartsModel>), Error>(
        (initial_model(), Seq::<PartsModel>::empty().push(parts)),
    ));
    assert(Seq::<PartsModel>::empty().push(parts) == seq![parts]);
    lemma_trim_line_end(signature);
}

/// The start line of a legacy proof of type `t` (as written, e.g.
/// `PACKAGE REVIEW`): `-----BEGIN CREV <t>-----`.
pub open spec fn legacy_start_line(t: Seq<char>) -> Seq<char> {
    legacy_start_prefix() + t + legacy_start_suffix()
}

/// The signature line of a legacy proof of type `t`:
/// `-----BEGIN CREV <t> SIGNATURE-----`.
pub open spec fn legacy_signature_line(t: Seq<char>) -> Seq<char> {
    legacy_start_prefix() + t + legacy_signature_suffix()
}

/// The end line of a legacy proof of type `t`: `-----END CREV <t>-----`.
pub open spec fn legacy_end_line(t: Seq<char>) -> Seq<char> {
    legacy_end_prefix() + t + legacy_start_suffix()
}

/// The text of a legacy proof of type `t` whose body is the lines `ls` and
/// whose signature is the lines `ss`.
pub open spec fn legacy_proof_text(t: Seq<char>, ls: Seq<Seq<char>>, ss: Seq<Seq<char>>) -> Seq<
    char,
> {
    legacy_start_line(t) + seq!['\n'] + join_lines(ls) + legacy_signature_line(t) + seq!['\n']
        + join_lines(ss) + legacy_end_line(t) + seq!['\n']
}

/// The parser state inside a legacy proof whose type name is `tn`.
pub open spec fn legacy_state(stage: Stage, tn: Seq<char>, body: Seq<char>, signature: Seq<char>) -> ParserModel {
    ParserModel { stage, body, signature, kind_name: Some(tn) }
}

/// A marker line made of a dash-ended prefix, a type and a dash-ended
/// suffix is its own trimmed form and a plain line.
proof fn lemma_marker_line(pre: Seq<char>, t: Seq<char>, suf: Seq<char>)
    requires
        pre.len() > 0,
        pre[0] == '-',
        suf.len() > 0,
        suf.last() == '-',
        !pre.contains('\n'),
        !t.contains('\n'),
        !suf.contains('\n'),
    ensures
        trim(pre + t + suf) == pre + t + suf,
        plain_line(pre + t + suf),
        (pre + t + suf).take(pre.len() as int) == pre,
        (pre + t + suf).skip((pre + t + suf).len() - suf.len()) == suf,
        (pre + t + suf).subrange(pre.len() as int, (pre + t + suf).len() - suf.len()) == t,
{
    let l = pre + t + suf;
    assert(l[0] == '-');
    assert(l.last() == '-');
    assert(!crate::text::is_white_space('-'));
    assert(trim_start(l) == l);
    assert(trim_end(l) == l);
    assert(!l.contains('\n')) by {
        if l.contains('\n') {
            let k = choose|k: int| 0 <= k < l.len() && l[k] == '\n';
            if k < pre.len() {
                assert(pre[k] == '\n');
            } else if k < pre.len() + t.len() {
                assert(t[k - pre.len()] == '\n');
            } else {
                assert(suf[k - pre.len() - t.len()] == '\n');
            }
        }
    }
    assert(l.take(pre.len() as int) =~= pre);
    assert(l.skip(l.len() - suf.len()) =~= suf);
    assert(l.subrange(pre.len() as int, l.len() - suf.len()) =~= t);
}

proof fn lemma_legacy_literals()
    ensures
        legacy_start_prefix().len() == 16,
        legacy_end_prefix().len() == 14,
        legacy_start_suffix().len() == 5,
        legacy_signature_suffix().len() == 15,
        legacy_start_prefix()[0] == '-',
        legacy_end_prefix()[0] == '-',
        legacy_start_suffix().last() == '-',
        legacy_signature_suffix().last() == '-',
        !legacy_start_prefix().contains('\n'),
        !legacy_end_prefix().contains('\n'),
        !legacy_start_suffix().contains('\n'),
        !legacy_signature_suffix().contains('\n'),
        crate::framing::legacy_start_suffix_alt()[0] == ' ',
        crate::framing::legacy_start_suffix_alt().len() == 6,
        crate::framing::legacy_start_suffix_alt().skip(1) == legacy_start_suffix(),
        "-----BEGIN CREV -----"@.len() == 21,
        "-----BEGIN CREV SIGNATURE-----"@.len() == 30,
        legacy_signature_name("-----BEGIN CREV SIGNATURE-----"@) is Some,
{
    reveal_strlit("-----BEGIN CREV ");
    reveal_strlit("-----END CREV ");
    reveal_strlit("-----");
    reveal_strlit(" SIGNATURE-----");
    reveal_strlit(" -----");
    reveal_strlit("-----BEGIN CREV -----");
    reveal_strlit("-----BEGIN CREV SIGNATURE-----");
    let l = "-----BEGIN CREV SIGNATURE-----"@;
    assert(!crate::text::is_white_space('-'));
    assert(trim_start(l) == l);
    assert(trim_end(l) == l);
    assert(l.take(16) =~= legacy_start_prefix());
    assert(l.skip(15) =~= legacy_signature_suffix());
    assert(crate::framing::legacy_start_suffix_alt().skip(1) =~= legacy_start_suffix());
    assert(!legacy_start_prefix().contains('\n'));
    assert(!legacy_end_prefix().contains('\n'));
    assert(!legacy_start_suffix().contains('\n'));
    assert(!legacy_signature_suffix().contains('\n'));
}

/// The marker lines of a legacy proof of type `t` name the type `t` (lower
/// case), and are plain lines that trimming leaves alone.
proof fn lemma_legacy_markers(t: Seq<char>)
    requires
        t.len() > 0,
        t.last() != ' ',
        !t.contains('\n'),
    ensures
        trim(legacy_start_line(t)) == legacy_start_line(t),
        plain_line(legacy_start_line(t)),
        plain_line(legacy_signature_line(t)),
        plain_line(legacy_end_line(t)),
        legacy_start_name(legacy_start_line(t)) == Some(crate::text::unicode_lowercase(t)),
        legacy_signature_name(legacy_signature_line(t)) == Some(crate::text::unicode_lowercase(t)),
        legacy_end_name(legacy_end_line(t)) == Some(crate::text::unicode_lowercase(t)),
        trim(legacy_start_line(t)) != "-----BEGIN CREV -----"@,
        trim(legacy_signature_line(t)) != "-----BEGIN CREV SIGNATURE-----"@,
        trim(legacy_start_line(t)).len() > 0,
{
    lemma_legacy_literals();
    let pre = legacy_start_prefix();
    let suf = legacy_start_suffix();
    lemma_marker_line(pre, t, suf);
    lemma_marker_line(pre, t, legacy_signature_suffix());
    lemma_marker_line(legacy_end_prefix(), t, suf);
    let s = legacy_start_line(t);
    let alt = crate::framing::legacy_start_suffix_alt();
    assert(!crate::text::ends_with(s, alt)) by {
        if crate::text::ends_with(s, alt) {
            assert(s[s.len() - 6] == alt[0]);
            assert(s[s.len() - 6] == t.last());
        }
    }
    assert(crate::text::starts_with(s, pre));
    assert(crate::text::ends_with(s, suf));
    assert(s.subrange(16, s.len() - 5) == t);
    let g = legacy_signature_line(t);
    assert(crate::text::starts_with(g, pre));
    assert(crate::text::ends_with(g, legacy_signature_suffix()));
    assert(g.subrange(16, g.len() - 15) == t);
    let e = legacy_end_line(t);
    assert(crate::text::starts_with(e, legacy_end_prefix()));
    assert(crate::text::ends_with(e, suf));
    assert(e.subrange(14, e.len() - 5) == t);
}

proof fn lemma_legacy_text_lines(t: Seq<char>, ls: Seq<Seq<char>>, ss: Seq<Seq<char>>)
    requires
        t.len() > 0,
        t.last() != ' ',
        !t.contains('\n'),
        forall|i: int| 0 <= i < ls.len() ==> plain_line(#[trigger] ls[i]),
        forall|i: int| 0 <= i < ss.len() ==> plain_line(#[trigger] ss[i]),
    ensures
        lines(legacy_proof_text(t, ls, ss)) == seq![legacy_start_line(t)] + ls + seq![
            legacy_signature_line(t),
        ] + ss + seq![legacy_end_line(t)],
{
    lemma_legacy_markers(t);
    let nl = seq!['\n'];
    let st = legacy_start_line(t);
    let sg = legacy_signature_line(t);
    let en = legacy_end_line(t);
    let r4 = en + nl;
    let r3 = join_lines(ss) + r4;
    let r2 = sg + nl + r3;
    let r1 = join_lines(ls) + r2;
    assert(legacy_proof_text(t, ls, ss) == st + nl + r1);
    lemma_lines_from_line(Seq::empty(), st, r1);
    lemma_lines_join(ls, r2);
    lemma_lines_from_line(Seq::empty(), sg, r3);
    lemma_lines_join(ss, r4);
    assert(r4 == en + nl + Seq::<char>::empty());
    lemma_lines_from_line(Seq::empty(), en, Seq::<char>::empty());
    assert(Seq::<char>::empty() + st == st);
    assert(Seq::<char>::empty() + sg == sg);
    assert(Seq::<char>::empty() + en == en);
    assert(strip_cr(st) == st);
    assert(strip_cr(sg) == sg);
    assert(strip_cr(en) == en);
    assert(lines_from(Seq::empty(), Seq::<char>::empty()) == Seq::<Seq<char>>::empty());
    assert(lines(legacy_proof_text(t, ls, ss)) =~= seq![st] + ls + seq![sg] + ss + seq![en]);
}

proof fn lemma_run_legacy_body(tn: Seq<char>, ls: Seq<Seq<char>>, all: Seq<Seq<char>>, k: int)
    requires
        0 <= k <= ls.len(),
        all.len() >= 1 + ls.len(),
        run(initial_model(), all.take(1)) == Ok::<(ParserModel, Seq<PartsModel>), Error>(
            (legacy_state(Stage::Body, tn, Seq::empty(), Seq::empty()), Seq::empty()),
        ),
        !run_panics(initial_model(), all.take(1)),
        forall|i: int| 0 <= i < ls.len() ==> all[1 + i] == ls[i],
        forall|i: int| 0 <= i < ls.len() ==> legacy_signature_name(#[trigger] ls[i]) is None,
        byte_len(join_lines(ls)) <= crate::framing::MAX_PROOF_BODY_LENGTH,
    ensures
        run(initial_model(), all.take(1 + k)) == Ok::<(ParserModel, Seq<PartsModel>), Error>(
            (legacy_state(Stage::Body, tn, join_lines(ls.take(k)), Seq::empty()), Seq::empty()),
        ),
        !run_panics(initial_model(), all.take(1 + k)),
    decreases k,
{
    if k == 0 {
        assert(ls.take(0) == Seq::<Seq<char>>::empty());
        assert(join_lines(ls.take(0)) == Seq::<char>::empty());
    } else {
        lemma_run_legacy_body(tn, ls, all, k - 1);
        lemma_legacy_literals();
        let pre = all.take(k);
        let cur = all.take(1 + k);
        assert(cur.drop_last() == pre);
        assert(cur.last() == ls[k - 1]);
        let b0 = join_lines(ls.take(k - 1));
        let b1 = join_lines(ls.take(k));
        assert(ls.take(k) == ls.take(k - 1).push(ls[k - 1]));
        lemma_join_lines_push(ls.take(k - 1), ls[k - 1]);
        assert(b1 == b0 + ls[k - 1] + seq!['\n']);
        lemma_join_lines_split(ls, k);
        lemma_utf8_concat(b1, join_lines(ls.skip(k)));
        assert(byte_len(b1) <= byte_len(join_lines(ls)));
        assert(legacy_signature_name(ls[k - 1]) is None);
        assert(trim(ls[k - 1]) != "-----BEGIN CREV SIGNATURE-----"@) by {
            if trim(ls[k - 1]) == "-----BEGIN CREV SIGNATURE-----"@ {
                crate::text::lemma_trim_idempotent(ls[k - 1]);
            }
        }
        assert(!line_panics(legacy_state(Stage::Body, tn, b0, Seq::empty()), ls[k - 1]));
        assert(step(legacy_state(Stage::Body, tn, b0, Seq::empty()), ls[k - 1]) == Ok::<
            (ParserModel, Option<PartsModel>),
            Error,
        >((legacy_state(Stage::Body, tn, b1, Seq::empty()), None)));
    }
}

proof fn lemma_run_legacy_signature(
    tn: Seq<char>,
    body: Seq<char>,
    ss: Seq<Seq<char>>,
    all: Seq<Seq<char>>,
    n: int,
    k: int,
)
    requires
        0 <= n,
        0 <= k <= ss.len(),
        all.len() >= n + ss.len(),
        run(initial_model(), all.take(n)) == Ok::<(ParserModel, Seq<PartsModel>), Error>(
            (legacy_state(Stage::Signature, tn, body, Seq::empty()), Seq::empty()),
        ),
        !run_panics(initial_model(), all.take(n)),
        forall|i: int| 0 <= i < ss.len() ==> all[n + i] == ss[i],
        forall|i: int| 0 <= i < ss.len() ==> legacy_end_name(#[trigger] ss[i]) is None,
        byte_len(join_lines(ss)) <= crate::framing::MAX_SIGNATURE_LENGTH,
    ensures
        run(initial_model(), all.take(n + k)) == Ok::<(ParserModel, Seq<PartsModel>), Error>(
            (legacy_state(Stage::Signature, tn, body, join_lines(ss.take(k))), Seq::empty()),
        ),
        !run_panics(initial_model(), all.take(n + k)),
    decreases k,
{
    if k == 0 {
        assert(ss.take(0) == Seq::<Seq<char>>::empty());
        assert(join_lines(ss.take(0)) == Seq::<char>::empty());
        assert(all.take(n + 0) == all.take(n));
    } else {
        lemma_run_legacy_signature(tn, body, ss, all, n, k - 1);
        let pre = all.take(n + k - 1);
        let cur = all.take(n + k);
        assert(cur.drop_last() == pre);
        assert(cur.last() == ss[k - 1]);
        let s0 = join_lines(ss.take(k - 1));
        let s1 = join_lines(ss.take(k));
        assert(ss.take(k) == ss.take(k - 1).push(ss[k - 1]));
        lemma_join_lines_push(ss.take(k - 1), ss[k - 1]);
        assert(s1 == s0 + ss[k - 1] + seq!['\n']);
        lemma_join_lines_split(ss, k);
        lemma_utf8_concat(s1, join_lines(ss.skip(k)));
        assert(byte_len(s1) <= byte_len(join_lines(ss)));
        assert(legacy_end_name(ss[k - 1]) is None);
        assert(step(legacy_state(Stage::Signature, tn, body, s0), ss[k - 1]) == Ok::<
            (ParserModel, Option<PartsModel>),
            Error,
        >((legacy_state(Stage::Signature, tn, body, s1), None)));
    }
}

/// The text of a legacy proof reads back as exactly that proof: one frame
/// whose body is every line between the start line and the signature line
/// (blank ones included), each with its line ending, whose signature is
/// every line between the signature line and the end line, and whose type
/// is the type written in the marker lines, in lower case; and no line of
/// it is one the parser panics on. The type is not blank-ended and lies on
/// one line; no body line is a signature line and no signature line an end
/// line; both parts are within the parser's length limits.
pub proof fn lemma_legacy_text_frames_back(t: Seq<char>, ls: Seq<Seq<char>>, ss: Seq<Seq<char>>)
    requires
        t.len() > 0,
        t.last() != ' ',
        !t.contains('\n'),
        forall|i: int|
            0 <= i < ls.len() ==> plain_line(#[trigger] ls[i]) && legacy_signature_name(ls[i]) is None,
        forall|i: int|
            0 <= i < ss.len() ==> plain_line(#[trigger] ss[i]) && legacy_end_name(ss[i]) is None,
        byte_len(join_lines(ls)) <= crate::framing::MAX_PROOF_BODY_LENGTH,
        byte_len(join_lines(ss)) <= crate::framing::MAX_SIGNATURE_LENGTH,
    ensures
        !run_panics(initial_model(), lines(legacy_proof_text(t, ls, ss))),
        frames_of(lines(legacy_proof_text(t, ls, ss))) == Ok::<Seq<PartsModel>, Error>(
            seq![
                PartsModel {
                    body: join_lines(ls),
                    signature: join_lines(ss),
                    legacy_type: Some(crate::text::unicode_lowercase(t)),
                },
            ],
        ),
{
    lemma_legacy_markers(t);
    lemma_legacy_literals();
    assert forall|i: int| 0 <= i < ls.len() implies plain_line(#[trigger] ls[i]) by {}
    assert forall|i: int| 0 <= i < ss.len() implies plain_line(#[trigger] ss[i]) by {}
    lemma_legacy_text_lines(t, ls, ss);
    let tn = crate::text::unicode_lowercase(t);
    let st = legacy_start_line(t);
    let sg = legacy_signature_line(t);
    let en = legacy_end_line(t);
    let all = seq![st] + ls + seq![sg] + ss + seq![en];
    let n: int = ls.len() as int;
    let m: int = ss.len() as int;
    // the start line
    let a1 = all.take(1);
    assert(a1.drop_last() == Seq::<Seq<char>>::empty());
    assert(a1.last() == st);
    assert(step(initial_model(), st) == Ok::<(ParserModel, Option<PartsModel>), Error>(
        (legacy_state(Stage::Body, tn, Seq::empty(), Seq::empty()), None),
    ));
    assert(!line_panics(initial_model(), st));
    assert(run(initial_model(), a1.drop_last()) == Ok::<(ParserModel, Seq<PartsModel>), Error>(
        (initial_model(), Seq::empty()),
    ));
    assert(!run_panics(initial_model(), a1.drop_last()));
    assert(run(initial_model(), a1) == Ok::<(ParserModel, Seq<PartsModel>), Error>(
        (legacy_state(Stage::Body, tn, Seq::empty(), Seq::empty()), Seq::empty()),
    ));
    // the body
    assert forall|i: int| 0 <= i < n implies all[1 + i] == ls[i] by {}
    assert forall|i: int| 0 <= i < n implies legacy_signature_name(#[trigger] ls[i]) is None by {}
    lemma_run_legacy_body(tn, ls, all, n);
    assert(ls.take(n) == ls);
    let body = join_lines(ls);
    // the signature line
    let a2 = all.take(n + 2);
    assert(a2.drop_last() == all.take(1 + n));
    assert(a2.last() == sg);
    assert(!line_panics(legacy_state(Stage::Body, tn, body, Seq::empty()), sg));
    assert(step(legacy_state(Stage::Body, tn, body, Seq::empty()), sg) == Ok::<
        (ParserModel, Option<PartsModel>),
        Error,
    >((legacy_state(Stage::Signature, tn, body, Seq::empty()), None)));
    assert(run(initial_model(), a2) == Ok::<(ParserModel, Seq<PartsModel>), Error>(
        (legacy_state(Stage::Signature, tn, body, Seq::empty()), Seq::<PartsModel>::empty()),
    ));
    assert(!run_panics(initial_model(), a2));
    // the signature
    assert forall|i: int| 0 <= i < m implies all[n + 2 + i] == ss[i] by {}
    assert forall|i: int| 0 <= i < m implies legacy_end_name(#[trigger] ss[i]) is None by {}
    lemma_run_legacy_signature(tn, body, ss, all, n + 2, m);
    assert(ss.take(m) == ss);
    let sig = join_lines(ss);
    let st3 = legacy_state(Stage::Signature, tn, body, sig);
    let a3 = all.take(n + 2 + m);
    assert(!line_panics(st3, en));
    // the end line
    let a4 = all.take(n + 3 + m);
    assert(a4.drop_last() == a3);
    assert(a4.last() == en);
    assert(a4 == all);
    let parts = PartsModel { body, signature: sig, legacy_type: Some(tn) };
    assert(byte_len(Seq::<char>::empty()) == 0);
    assert(step(st3, en) == Ok::<(ParserModel, Option<PartsModel>), Error>(
        (initial_model(), Some(parts)),
    ));
    assert(run(initial_model(), all) == Ok::<(ParserModel, Seq<PartsModel>), Error>(
        (initial_model(), Seq::<PartsModel>::empty().push(parts)),
    ));
    assert(Seq::<PartsModel>::empty().push(parts) == seq![parts]);
}

/// The signature that stands in for a real one when a body is only framed to
/// check it: the base64 of the bytes of `somefakesignature`.
pub fn placeholder_signature() -> (s: String)
    ensures
        s@ == base64_url_nopad(utf8("somefakesignature"@)),
{
    let lit = "somefakesignature";
    proof {
        reveal_strlit("somefakesignature");
        crate::id::lemma_utf8_len_bound(lit@);
    }
    base64_encode(lit.as_bytes())
}

/// Does the text of a proof with this body and signature frame back as
/// exactly one proof? The error of the framing, or the number of proofs it
/// gave where that is not one.
pub fn ensure_frames_to_single_proof(body: &str, signature: &str) -> (r: Result<(), Error>)
    requires
        !run_panics(initial_model(), lines(proof_text(body@, signature@))),
    ensures
        r == match frames_of(lines(proof_text(body@, signature@))) {
            Err(e) => Err::<(), Error>(e),
            Ok(v) => if v.len() == 1 {
                Ok::<(), Error>(())
            } else {
                Err(Error::SerializedTooManyProofs(v.len() as usize))
            },
        },
{
    let text = proof_text_of(body, signature);
    let parsed = parse_text(text.as_str())?;
    if parsed.len() != 1 {
        return Err(Error::SerializedTooManyProofs(parsed.len()));
    }
    Ok(())
}

/// A proof's content prepared for editing: a title and the editable body.
#[derive(Debug, Clone)]
pub struct Draft {
    pub title: String,
    pub body: String,
}

impl Draft {
    pub fn title(&self) -> (s: &str)
        ensures
            s@ == self.title@,
    {
        self.title.as_str()
    }

    pub fn body(&self) -> (s: &str)
        ensures
            s@ == self.body@,
    {
        self.body.as_str()
    }
}

/// The texts of several proofs, one after the other.
pub open spec fn proofs_text(ps: Seq<(Seq<char>, Seq<char>)>) -> Seq<char>
    decreases ps.len(),
{
    if ps.len() == 0 {
        Seq::empty()
    } else {
        proofs_text(ps.drop_last()) + proof_text(ps.last().0, ps.last().1)
    }
}

/// The frames that the texts of these proofs read back as.
pub open spec fn frames_written(ps: Seq<(Seq<char>, Seq<char>)>) -> Seq<PartsModel> {
    ps.map_values(
        |p: (Seq<char>, Seq<char>)| PartsModel { body: p.0, signature: p.1 + seq!['\n'], legacy_type: None },
    )
}

/// The texts of several proofs written one after the other read back as
/// exactly those proofs, in order; and no line of them is one the parser
/// panics on.
pub proof fn lemma_proofs_text_frames_back(
    ps: Seq<(Seq<char>, Seq<char>)>,
    ls: Seq<(Seq<Seq<char>>, Seq<Seq<char>>)>,
)
    requires
        ps.len() == ls.len(),
        forall|i: int| 0 <= i < ps.len() ==> framable(#[trigger] ps[i].0, ps[i].1, ls[i].0, ls[i].1),
    ensures
        !run_panics(initial_model(), lines(proofs_text(ps))),
        run(initial_model(), lines(proofs_text(ps))) == Ok::<(ParserModel, Seq<PartsModel>), Error>(
            (initial_model(), frames_written(ps)),
        ),
        frames_of(lines(proofs_text(ps))) == Ok::<Seq<PartsModel>, Error>(frames_written(ps)),
    decreases ps.len(),
{
    if ps.len() == 0 {
        assert(proofs_text(ps) == Seq::<char>::empty());
        assert(lines(Seq::<char>::empty()) == Seq::<Seq<char>>::empty());
        assert(frames_written(ps) == Seq::<PartsModel>::empty());
    } else {
        let n = ps.len() - 1;
        let pre = ps.drop_last();
        assert forall|i: int| 0 <= i < pre.len() implies framable(
            #[trigger] pre[i].0,
            pre[i].1,
            ls.drop_last()[i].0,
            ls.drop_last()[i].1,
        ) by {
            assert(pre[i] == ps[i]);
        }
        lemma_proofs_text_frames_back(pre, ls.drop_last());
        let last = ps[n];
        assert(framable(last.0, last.1, ls[n].0, ls[n].1));
        lemma_proof_text_frames_back(last.0, last.1, ls[n].0, ls[n].1);
        let t1 = proofs_text(pre);
        let t2 = proof_text(last.0, last.1);
        assert(proofs_text(ps) == t1 + t2);
        if pre.len() == 0 {
            assert(t1 == Seq::<char>::empty());
            assert(t1 + t2 == t2);
            assert(lines(t1) == Seq::<Seq<char>>::empty());
            assert(lines(t1) + lines(t2) == lines(t2));
        } else {
            let q = pre.last();
            assert(proof_text(q.0, q.1).last() == '\n');
            assert(t1.last() == '\n');
            lemma_lines_append(Seq::empty(), t1, t2);
        }
        assert(lines(t1 + t2) == lines(t1) + lines(t2));
        lemma_run_append(initial_model(), lines(t1), lines(t2));
        let one = seq![PartsModel { body: last.0, signature: last.1 + seq!['\n'], legacy_type: None }];
        assert(frames_written(pre) + one =~= frames_written(ps));
    }
}

} // verus!
