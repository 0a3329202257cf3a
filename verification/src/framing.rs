//! Reading signed proofs out of text: the frame of a proof (start line, body,
//! signature line, signature, end line) in the current format and in the
//! legacy one (`-----BEGIN CREV <TYPE>-----`), line by line.
use vstd::prelude::*;
use crate::error::Error;
use crate::text::{
    chars_end_with, chars_eq_str, chars_of, chars_start_with, chars_subrange, ends_with, push_str,
    split_lines, starts_with, string_from_chars, to_lowercase, trim, trim_chars, lemma_trim_idempotent,
    unicode_lowercase,
};

verus! {

pub const MAX_PROOF_BODY_LENGTH: usize = 32000;

pub const MAX_SIGNATURE_LENGTH: usize = 2000;

pub open spec fn proof_start() -> Seq<char> {
    "----- BEGIN CREV PROOF -----"@
}

pub open spec fn proof_signature() -> Seq<char> {
    "----- SIGN CREV PROOF -----"@
}

pub open spec fn proof_end() -> Seq<char> {
    "----- END CREV PROOF -----"@
}

pub open spec fn legacy_start_prefix() -> Seq<char> {
    "-----BEGIN CREV "@
}

pub open spec fn legacy_start_suffix() -> Seq<char> {
    "-----"@
}

pub open spec fn legacy_start_suffix_alt() -> Seq<char> {
    " -----"@
}

pub open spec fn legacy_signature_suffix() -> Seq<char> {
    " SIGNATURE-----"@
}

pub open spec fn legacy_end_prefix() -> Seq<char> {
    "-----END CREV "@
}

/// The type name in a legacy start line (`-----BEGIN CREV <TYPE>-----`, or
/// with a space before the dashes), lower case.
pub open spec fn legacy_start_name(line: Seq<char>) -> Option<Seq<char>> {
    let t = trim(line);
    if starts_with(t, legacy_start_prefix()) && ends_with(t, legacy_start_suffix_alt()) {
        Some(unicode_lowercase(t.subrange(16, t.len() - 6)))
    } else if starts_with(t, legacy_start_prefix()) && ends_with(t, legacy_start_suffix()) {
        Some(unicode_lowercase(t.subrange(16, t.len() - 5)))
    } else {
        None
    }
}

/// The type name in a legacy signature line (`-----BEGIN CREV <TYPE> SIGNATURE-----`).
pub open spec fn legacy_signature_name(line: Seq<char>) -> Option<Seq<char>> {
    let t = trim(line);
    if starts_with(t, legacy_start_prefix()) && ends_with(t, legacy_signature_suffix()) {
        Some(unicode_lowercase(t.subrange(16, t.len() - 15)))
    } else {
        None
    }
}

/// The type name in a legacy end line (`-----END CREV <TYPE>-----`).
pub open spec fn legacy_end_name(line: Seq<char>) -> Option<Seq<char>> {
    let t = trim(line);
    if starts_with(t, legacy_end_prefix()) && ends_with(t, legacy_start_suffix()) {
        Some(unicode_lowercase(t.subrange(14, t.len() - 5)))
    } else {
        None
    }
}

/// Where the parser stands.
#[derive(Debug, Clone, Copy, PartialEq, Eq, Structural)]
pub enum Stage {
    /// Between proofs, looking for a start line.
    Idle,
    /// Reading the body.
    Body,
    /// Reading the signature.
    Signature,
}

/// The state of the parser as a value.
pub struct ParserModel {
    pub stage: Stage,
    pub body: Seq<char>,
    pub signature: Seq<char>,
    pub kind_name: Option<Seq<char>>,
}

/// A proof cut out of the text: its body, its signature lines, and the type
/// name of a legacy frame.
pub struct PartsModel {
    pub body: Seq<char>,
    pub signature: Seq<char>,
    pub legacy_type: Option<Seq<char>>,
}

pub open spec fn initial_model() -> ParserModel {
    ParserModel {
        stage: Stage::Idle,
        body: Seq::empty(),
        signature: Seq::empty(),
        kind_name: None,
    }
}

/// The length in bytes of a text in UTF-8.
pub open spec fn byte_len(s: Seq<char>) -> int {
    vstd::utf8::encode_utf8(s).len() as int
}

/// Is `line` one the parser cannot take in state `m`? Only the two malformed
/// legacy marker lines whose prefix and suffix overlap, read where they would
/// open a frame or its signature; a reader stops (panics) on them.
pub open spec fn line_panics(m: ParserModel, line: Seq<char>) -> bool {
    match m.stage {
        Stage::Idle => trim(line) == "-----BEGIN CREV -----"@,
        Stage::Body => m.kind_name is Some && trim(line) == "-----BEGIN CREV SIGNATURE-----"@,
        Stage::Signature => false,
    }
}

/// One line of input read in state `m`: the next state and, when a proof
/// ends on this line, its parts; or the error the line raises.
pub open spec fn step(m: ParserModel, line: Seq<char>) -> Result<
    (ParserModel, Option<PartsModel>),
    Error,
> {
    match m.stage {
        Stage::Idle => {
            let t = trim(line);
            if t.len() == 0 {
                Ok((m, None))
            } else if legacy_start_name(t) is Some {
                Ok((ParserModel { stage: Stage::Body, kind_name: legacy_start_name(t), ..m }, None))
            } else if t == proof_start() {
                Ok((ParserModel { stage: Stage::Body, ..m }, None))
            } else {
                Err(Error::ParsingErrorWhenLookingForStartOfCodeReviewProof)
            }
        },
        Stage::Body => {
            let next: Result<ParserModel, Error> = match m.kind_name {
                Some(tn) => match legacy_signature_name(line) {
                    Some(n) => if n != tn {
                        Err(Error::ParsingErrorTypeNameMismatchInTheSignature)
                    } else {
                        Ok(ParserModel { stage: Stage::Signature, ..m })
                    },
                    None => Ok(ParserModel { body: m.body + line + seq!['\n'], ..m }),
                },
                None => if trim(line) == proof_signature() {
                    Ok(ParserModel { stage: Stage::Signature, ..m })
                } else {
                    Ok(ParserModel { body: m.body + line + seq!['\n'], ..m })
                },
            };
            match next {
                Err(e) => Err(e),
                Ok(n) => if byte_len(n.body) > MAX_PROOF_BODY_LENGTH {
                    Err(Error::ProofBodyTooLong)
                } else {
                    Ok((n, None))
                },
            }
        },
        Stage::Signature => {
            let next: Result<(ParserModel, Option<PartsModel>), Error> = match m.kind_name {
                Some(tn) => match legacy_end_name(line) {
                    Some(n) => if n != tn {
                        Err(Error::ParsingErrorTypeNameMismatchInTheFooter)
                    } else {
                        Ok(
                            (
                                initial_model(),
                                Some(
                                    PartsModel {
                                        body: m.body,
                                        signature: m.signature,
                                        legacy_type: Some(n),
                                    },
                                ),
                            ),
                        )
                    },
                    None => Ok((ParserModel { signature: m.signature + line + seq!['\n'], ..m }, None)),
                },
                None => if trim(line) == proof_end() {
                    Ok(
                        (
                            initial_model(),
                            Some(
                                PartsModel { body: m.body, signature: m.signature, legacy_type: None },
                            ),
                        ),
                    )
                } else {
                    Ok((ParserModel { signature: m.signature + line + seq!['\n'], ..m }, None))
                },
            };
            match next {
                Err(e) => Err(e),
                Ok((n, out)) => if byte_len(n.signature) > MAX_SIGNATURE_LENGTH {
                    Err(Error::SignatureTooLong)
                } else {
                    Ok((n, out))
                },
            }
        },
    }
}

/// The lines read one after the other from state `m`: the final state and the
/// proofs cut out, or the first error.
pub open spec fn run(m: ParserModel, lines: Seq<Seq<char>>) -> Result<
    (ParserModel, Seq<PartsModel>),
    Error,
>
    decreases lines.len(),
{
    if lines.len() == 0 {
        Ok((m, Seq::empty()))
    } else {
        match run(m, lines.drop_last()) {
            Err(e) => Err(e),
            Ok((m1, out)) => match step(m1, lines.last()) {
                Err(e) => Err(e),
                Ok((m2, p)) => match p {
                    Some(parts) => Ok((m2, out.push(parts))),
                    None => Ok((m2, out)),
                },
            },
        }
    }
}

/// Would reading these lines from `m` reach a line the parser cannot take?
pub open spec fn run_panics(m: ParserModel, lines: Seq<Seq<char>>) -> bool
    decreases lines.len(),
{
    if lines.len() == 0 {
        false
    } else {
        run_panics(m, lines.drop_last()) || match run(m, lines.drop_last()) {
            Err(_) => false,
            Ok((m1, _)) => line_panics(m1, lines.last()),
        }
    }
}

/// The proofs framed in a sequence of lines, or the error that stops reading
/// them; text that ends inside a proof is an error.
pub open spec fn frames_of(lines: Seq<Seq<char>>) -> Result<Seq<PartsModel>, Error> {
    match run(initial_model(), lines) {
        Err(e) => Err(e),
        Ok((m, out)) => if m.stage != Stage::Idle {
            Err(Error::UnexpectedEOFWhileParsing)
        } else {
            Ok(out)
        },
    }
}

/// A proof as cut out of the text (see [`PartsModel`]).
pub struct ProofParts {
    pub body: String,
    pub signature: String,
    pub legacy_type: Option<String>,
}

impl View for ProofParts {
    type V = PartsModel;

    open spec fn view(&self) -> PartsModel {
        PartsModel {
            body: self.body@,
            signature: self.signature@,
            legacy_type: match self.legacy_type {
                Some(t) => Some(t@),
                None => None,
            },
        }
    }
}

/// The line-by-line proof parser.
pub struct ProofParser {
    stage: Stage,
    body: String,
    signature: String,
    kind_name: Option<String>,
}

impl View for ProofParser {
    type V = ParserModel;

    closed spec fn view(&self) -> ParserModel {
        ParserModel {
            stage: self.stage,
            body: self.body@,
            signature: self.signature@,
            kind_name: match self.kind_name {
                Some(t) => Some(t@),
                None => None,
            },
        }
    }
}

fn lit(s: &str) -> (v: Vec<char>)
    ensures
        v@ == s@,
{
    chars_of(s)
}

/// The type name of a legacy start line, given the trimmed line.
fn is_legacy_start_line(t: &Vec<char>) -> (r: Option<String>)
    requires
        t@ == trim(t@),
        t@ != "-----BEGIN CREV -----"@,
    ensures
        r matches Some(s) ==> legacy_start_name(t@) == Some(s@),
        r is None ==> legacy_start_name(t@) is None,
{
    let p = lit("-----BEGIN CREV ");
    let sa = lit(" -----");
    let s = lit("-----");
    proof {
        reveal_strlit("-----BEGIN CREV ");
        reveal_strlit(" -----");
        reveal_strlit("-----");
        reveal_strlit("-----BEGIN CREV -----");
        lemma_trim_idempotent(t@);
    }
    if chars_start_with(t.as_slice(), p.as_slice()) && chars_end_with(t.as_slice(), sa.as_slice()) {
        proof {
            let p = "-----BEGIN CREV "@;
            assert(t@.take(16) == p);
            assert(t@.skip(t@.len() - 6) == " -----"@);
            if t@.len() < 22 {
                let n = t@.len();
                assert(p[10] == ' ' && p[11] == 'C' && p[12] == 'R' && p[13] == 'E' && p[14] == 'V'
                    && p[15] == ' ');
                if n == 16 {
                    assert(t@[15] == t@.take(16)[15]);
                    assert(t@[15] == t@.skip(10)[5]);
                } else if n <= 20 {
                    assert(t@[n - 6] == t@.take(16)[n - 6]);
                    assert(t@[n - 6] == t@.skip(n - 6)[0]);
                } else {
                    assert(t@ =~= "-----BEGIN CREV -----"@) by {
                        assert forall|i: int| 0 <= i < 21 implies t@[i]
                            == "-----BEGIN CREV -----"@[i] by {
                            if i < 16 {
                                assert(t@[i] == t@.take(16)[i]);
                            } else {
                                assert(t@[i] == t@.skip(15)[i - 15]);
                            }
                        }
                    }
                }
            }
        }
        let name = chars_subrange(t.as_slice(), 16, t.len() - 6);
        let ns = string_from_chars(name.as_slice());
        Some(to_lowercase(ns.as_str()))
    } else if chars_start_with(t.as_slice(), p.as_slice()) && chars_end_with(
        t.as_slice(),
        s.as_slice(),
    ) {
        proof {
            if t@.len() < 21 {
                assert(t@.skip(t@.len() - 5)[15 - (t@.len() - 5)] == '-');
                assert(t@[15] == t@.take(16)[15]);
            }
        }
        let name = chars_subrange(t.as_slice(), 16, t.len() - 5);
        let ns = string_from_chars(name.as_slice());
        Some(to_lowercase(ns.as_str()))
    } else {
        None
    }
}

/// The type name of a legacy signature line.
fn is_legacy_signature_line(line: &str) -> (r: Option<String>)
    requires
        trim(line@) != "-----BEGIN CREV SIGNATURE-----"@,
    ensures
        r matches Some(s) ==> legacy_signature_name(line@) == Some(s@),
        r is None ==> legacy_signature_name(line@) is None,
{
    let v = chars_of(line);
    let t = trim_chars(v.as_slice());
    let p = lit("-----BEGIN CREV ");
    let s = lit(" SIGNATURE-----");
    proof {
        reveal_strlit("-----BEGIN CREV ");
        reveal_strlit(" SIGNATURE-----");
        reveal_strlit("-----BEGIN CREV SIGNATURE-----");
    }
    if chars_start_with(t.as_slice(), p.as_slice()) && chars_end_with(t.as_slice(), s.as_slice()) {
        proof {
            let p = "-----BEGIN CREV "@;
            let q = " SIGNATURE-----"@;
            assert(t@.take(16) == p);
            let n = t@.len();
            assert(t@.skip(n - 15) == q);
            if n < 31 {
                assert(p[0] == '-' && p[1] == '-' && p[2] == '-' && p[3] == '-' && p[4] == '-'
                    && p[5] == 'B' && p[6] == 'E' && p[7] == 'G' && p[8] == 'I' && p[9] == 'N'
                    && p[10] == ' ' && p[11] == 'C' && p[12] == 'R' && p[13] == 'E' && p[14] == 'V'
                    && p[15] == ' ');
                assert(q[0] == ' ' && q[1] == 'S');
                if n == 25 {
                    assert(t@[11] == t@.take(16)[11]);
                    assert(t@[11] == t@.skip(10)[1]);
                } else if n < 30 {
                    assert(t@[n - 15] == t@.take(16)[n - 15]);
                    assert(t@[n - 15] == t@.skip(n - 15)[0]);
                } else {
                    assert(t@ =~= "-----BEGIN CREV SIGNATURE-----"@) by {
                        assert forall|i: int| 0 <= i < 30 implies t@[i]
                            == "-----BEGIN CREV SIGNATURE-----"@[i] by {
                            if i < 16 {
                                assert(t@[i] == t@.take(16)[i]);
                            } else {
                                assert(t@[i] == t@.skip(15)[i - 15]);
                            }
                        }
                    }
                }
            }
        }
        let name = chars_subrange(t.as_slice(), 16, t.len() - 15);
        let ns = string_from_chars(name.as_slice());
        Some(to_lowercase(ns.as_str()))
    } else {
        None
    }
}

/// The type name of a legacy end line.
fn is_legacy_end_line(line: &str) -> (r: Option<String>)
    ensures
        r matches Some(s) ==> legacy_end_name(line@) == Some(s@),
        r is None ==> legacy_end_name(line@) is None,
{
    let v = chars_of(line);
    let t = trim_chars(v.as_slice());
    let p = lit("-----END CREV ");
    let s = lit("-----");
    proof {
        reveal_strlit("-----END CREV ");
        reveal_strlit("-----");
    }
    if chars_start_with(t.as_slice(), p.as_slice()) && chars_end_with(t.as_slice(), s.as_slice()) {
        proof {
            if t@.len() < 19 {
                assert(t@.skip(t@.len() - 5)[13 - (t@.len() - 5)] == '-');
                assert(t@[13] == t@.take(14)[13]);
            }
        }
        let name = chars_subrange(t.as_slice(), 14, t.len() - 5);
        let ns = string_from_chars(name.as_slice());
        Some(to_lowercase(ns.as_str()))
    } else {
        None
    }
}

/// Is the trimmed `line` the literal `marker`?
fn trimmed_is(line: &str, marker: &str) -> (r: bool)
    ensures
        r == (trim(line@) == marker@),
{
    let v = chars_of(line);
    let t = trim_chars(v.as_slice());
    chars_eq_str(t.as_slice(), marker)
}

fn opt_string_eq(a: &Option<String>, b: &String) -> (r: bool)
    ensures
        r == (a matches Some(x) && x@ == b@),
{
    match a {
        Some(x) => crate::text::str_eq(x.as_str(), b.as_str()),
        None => false,
    }
}

fn byte_length(s: &String) -> (n: usize)
    ensures
        n == byte_len(s@),
{
    s.as_str().as_bytes().len()
}

impl ProofParser {
    /// A parser that has read nothing yet.
    pub fn new() -> (p: Self)
        ensures
            p@ == initial_model(),
    {
        ProofParser {
            stage: Stage::Idle,
            body: String::new(),
            signature: String::new(),
            kind_name: None,
        }
    }

    /// Is `line` one the parser cannot take now (see [`line_panics`])?
    pub fn line_would_panic(&self, line: &str) -> (r: bool)
        ensures
            r == line_panics(self@, line@),
    {
        match self.stage {
            Stage::Idle => trimmed_is(line, "-----BEGIN CREV -----"),
            Stage::Body => self.kind_name.is_some() && trimmed_is(
                line,
                "-----BEGIN CREV SIGNATURE-----",
            ),
            Stage::Signature => false,
        }
    }

    /// Reads one line: the next state and, when a proof ends on this line,
    /// its parts; or the error of [`step`].
    pub fn process_line(&mut self, line: &str) -> (r: Result<Option<ProofParts>, Error>)
        requires
            !line_panics(old(self)@, line@),
        ensures
            match step(old(self)@, line@) {
                Err(e) => r == Err::<Option<ProofParts>, Error>(e),
                Ok((m, out)) => r is Ok && final(self)@ == m && match (r.unwrap(), out) {
                    (Some(p), Some(o)) => p@ == o,
                    (None, None) => true,
                    _ => false,
                },
            },
    {
        proof {
            reveal_strlit("----- BEGIN CREV PROOF -----");
            reveal_strlit("----- SIGN CREV PROOF -----");
            reveal_strlit("----- END CREV PROOF -----");
        }
        match self.stage {
            Stage::Idle => {
                let v = chars_of(line);
                let t = trim_chars(v.as_slice());
                if t.len() == 0 {
                    return Ok(None);
                }
                proof {
                    lemma_trim_idempotent(line@);
                }
                let legacy = is_legacy_start_line(&t);
                match legacy {
                    Some(tn) => {
                        self.kind_name = Some(tn);
                        self.stage = Stage::Body;
                        Ok(None)
                    },
                    None => {
                        if chars_eq_str(t.as_slice(), "----- BEGIN CREV PROOF -----") {
                            self.stage = Stage::Body;
                            Ok(None)
                        } else {
                            Err(Error::ParsingErrorWhenLookingForStartOfCodeReviewProof)
                        }
                    },
                }
            },
            Stage::Body => {
                if self.kind_name.is_some() {
                    let sig = is_legacy_signature_line(line);
                    match sig {
                        Some(tn) => {
                            if !opt_string_eq(&self.kind_name, &tn) {
                                return Err(Error::ParsingErrorTypeNameMismatchInTheSignature);
                            }
                            self.stage = Stage::Signature;
                        },
                        None => {
                            push_str(&mut self.body, line);
                            self.body.push('\n');
                            assert(self.body@ =~= old(self).body@ + line@ + seq!['\n']);
                        },
                    }
                } else if trimmed_is(line, "----- SIGN CREV PROOF -----") {
                    self.stage = Stage::Signature;
                } else {
                    push_str(&mut self.body, line);
                    self.body.push('\n');
                    assert(self.body@ =~= old(self).body@ + line@ + seq!['\n']);
                }
                if byte_length(&self.body) > MAX_PROOF_BODY_LENGTH {
                    return Err(Error::ProofBodyTooLong);
                }
                Ok(None)
            },
            Stage::Signature => {
                let mut out: Option<ProofParts> = None;
                if self.kind_name.is_some() {
                    let end = is_legacy_end_line(line);
                    match end {
                        Some(tn) => {
                            if !opt_string_eq(&self.kind_name, &tn) {
                                return Err(Error::ParsingErrorTypeNameMismatchInTheFooter);
                            }
                            let mut body = String::new();
                            std::mem::swap(&mut body, &mut self.body);
                            let mut signature = String::new();
                            std::mem::swap(&mut signature, &mut self.signature);
                            self.stage = Stage::Idle;
                            self.kind_name = None;
                            out = Some(ProofParts { body, signature, legacy_type: Some(tn) });
                        },
                        None => {
                            push_str(&mut self.signature, line);
                            self.signature.push('\n');
                            assert(self.signature@ =~= old(self).signature@ + line@ + seq!['\n']);
                        },
                    }
                } else if trimmed_is(line, "----- END CREV PROOF -----") {
                    let mut body = String::new();
                    std::mem::swap(&mut body, &mut self.body);
                    let mut signature = String::new();
                    std::mem::swap(&mut signature, &mut self.signature);
                    self.stage = Stage::Idle;
                    out = Some(ProofParts { body, signature, legacy_type: None });
                } else {
                    push_str(&mut self.signature, line);
                    self.signature.push('\n');
                    assert(self.signature@ =~= old(self).signature@ + line@ + seq!['\n']);
                }
                if byte_length(&self.signature) > MAX_SIGNATURE_LENGTH {
                    return Err(Error::SignatureTooLong);
                }
                Ok(out)
            },
        }
    }

    /// Checks that the input did not end inside a proof.
    pub fn finish(&self) -> (r: Result<(), Error>)
        ensures
            r is Ok <==> self@.stage == Stage::Idle,
            r matches Err(e) ==> e == Error::UnexpectedEOFWhileParsing,
    {
        if self.stage != Stage::Idle {
            return Err(Error::UnexpectedEOFWhileParsing);
        }
        Ok(())
    }
}


/// The views of a sequence of strings.
pub open spec fn string_views(v: Seq<String>) -> Seq<Seq<char>> {
    v.map_values(|l: String| l@)
}

/// The views of a sequence of proof parts.
pub open spec fn parts_views(v: Seq<ProofParts>) -> Seq<PartsModel> {
    v.map_values(|p: ProofParts| p@)
}

proof fn lemma_run_panics_prefix(m: ParserModel, ls: Seq<Seq<char>>, k: int)
    requires
        0 <= k <= ls.len(),
        run_panics(m, ls.take(k)),
    ensures
        run_panics(m, ls),
    decreases ls.len() - k,
{
    if k < ls.len() {
        assert(ls.take(k) == ls.drop_last().take(k));
        lemma_run_panics_prefix(m, ls.drop_last(), k);
    } else {
        assert(ls.take(k) == ls);
    }
}

/// Cuts the proofs out of a sequence of lines (see [`frames_of`]).
pub fn parse_frames(lines: &Vec<String>) -> (r: Result<Vec<ProofParts>, Error>)
    requires
        !run_panics(initial_model(), string_views(lines@)),
    ensures
        r matches Ok(v) ==> frames_of(string_views(lines@)) == Ok::<Seq<PartsModel>, Error>(
            parts_views(v@),
        ),
        r matches Err(e) ==> frames_of(string_views(lines@)) == Err::<Seq<PartsModel>, Error>(e),
{
    let ghost ls = string_views(lines@);
    let mut parser = ProofParser::new();
    let mut out: Vec<ProofParts> = Vec::new();
    let mut i: usize = 0;
    assert(ls.take(0) == Seq::<Seq<char>>::empty());
    assert(parts_views(out@) == Seq::<PartsModel>::empty());
    while i < lines.len()
        invariant
            i <= lines.len(),
            ls == string_views(lines@),
            !run_panics(initial_model(), ls),
            run(initial_model(), ls.take(i as int)) == Ok::<(ParserModel, Seq<PartsModel>), Error>(
                (parser@, parts_views(out@)),
            ),
        decreases lines.len() - i,
    {
        let ghost pre = ls.take(i as int);
        let ghost next = ls.take(i + 1);
        assert(next.drop_last() == pre);
        assert(next.last() == lines@[i as int]@);
        proof {
            if line_panics(parser@, lines@[i as int]@) {
                assert(run_panics(initial_model(), next));
                lemma_run_panics_prefix(initial_model(), ls, i + 1);
            }
        }
        let ghost old_out = out@;
        match parser.process_line(lines[i].as_str()) {
            Err(e) => {
                proof {
                    lemma_run_error_sticks(initial_model(), ls, i + 1, e);
                }
                return Err(e);
            },
            Ok(Some(parts)) => {
                out.push(parts);
                assert(parts_views(out@) == parts_views(old_out).push(parts@));
            },
            Ok(None) => {},
        }
        i = i + 1;
    }
    assert(ls.take(lines.len() as int) == ls);
    match parser.finish() {
        Err(e) => Err(e),
        Ok(()) => Ok(out),
    }
}

proof fn lemma_run_error_sticks(m: ParserModel, ls: Seq<Seq<char>>, k: int, e: Error)
    requires
        0 <= k <= ls.len(),
        run(m, ls.take(k)) == Err::<(ParserModel, Seq<PartsModel>), Error>(e),
    ensures
        run(m, ls) == Err::<(ParserModel, Seq<PartsModel>), Error>(e),
    decreases ls.len() - k,
{
    if k < ls.len() {
        assert(ls.take(k) == ls.drop_last().take(k));
        lemma_run_error_sticks(m, ls.drop_last(), k, e);
    } else {
        assert(ls.take(k) == ls);
    }
}

/// Cuts the proofs out of a text: its lines (see [`crate::text::lines`]) read
/// by [`parse_frames`].
pub fn parse_text(text: &str) -> (r: Result<Vec<ProofParts>, Error>)
    requires
        !run_panics(initial_model(), crate::text::lines(text@)),
    ensures
        r matches Ok(v) ==> frames_of(crate::text::lines(text@)) == Ok::<Seq<PartsModel>, Error>(
            parts_views(v@),
        ),
        r matches Err(e) ==> frames_of(crate::text::lines(text@)) == Err::<Seq<PartsModel>, Error>(
            e,
        ),
{
    let lines = split_lines(text);
    parse_frames(&lines)
}

proof fn lemma_run_error_no_panic(m: ParserModel, ls: Seq<Seq<char>>, k: int)
    requires
        0 <= k <= ls.len(),
        run(m, ls.take(k)) is Err,
        !run_panics(m, ls.take(k)),
    ensures
        !run_panics(m, ls),
    decreases ls.len() - k,
{
    if k < ls.len() {
        assert(ls.take(k) == ls.drop_last().take(k));
        lemma_run_error_no_panic(m, ls.drop_last(), k);
        let e = run(m, ls.take(k))->Err_0;
        lemma_run_error_sticks(m, ls.drop_last(), k, e);
    } else {
        assert(ls.take(k) == ls);
    }
}

/// Would reading these lines reach a line the parser panics on (see
/// [`run_panics`])?
pub fn frames_would_panic(lines: &Vec<String>) -> (b: bool)
    ensures
        b == run_panics(initial_model(), string_views(lines@)),
{
    let ghost ls = string_views(lines@);
    let ghost mut outs: Seq<PartsModel> = Seq::empty();
    let mut parser = ProofParser::new();
    let mut i: usize = 0;
    assert(ls.take(0) == Seq::<Seq<char>>::empty());
    while i < lines.len()
        invariant
            i <= lines.len(),
            ls == string_views(lines@),
            !run_panics(initial_model(), ls.take(i as int)),
            run(initial_model(), ls.take(i as int)) == Ok::<(ParserModel, Seq<PartsModel>), Error>(
                (parser@, outs),
            ),
        decreases lines.len() - i,
    {
        let ghost pre = ls.take(i as int);
        let ghost next = ls.take(i + 1);
        assert(next.drop_last() == pre);
        assert(next.last() == lines@[i as int]@);
        if parser.line_would_panic(lines[i].as_str()) {
            proof {
                assert(run_panics(initial_model(), next));
                lemma_run_panics_prefix(initial_model(), ls, i + 1);
            }
            return true;
        }
        match parser.process_line(lines[i].as_str()) {
            Err(e) => {
                proof {
                    assert(!run_panics(initial_model(), next));
                    lemma_run_error_no_panic(initial_model(), ls, i + 1);
                }
                return false;
            },
            Ok(Some(parts)) => {
                proof {
                    outs = outs.push(parts@);
                }
            },
            Ok(None) => {},
        }
        i = i + 1;
    }
    assert(ls.take(lines.len() as int) == ls);
    false
}

/// Would reading the lines of this text reach a line the parser panics on?
pub fn text_would_panic(text: &str) -> (b: bool)
    ensures
        b == run_panics(initial_model(), crate::text::lines(text@)),
{
    let lines = split_lines(text);
    frames_would_panic(&lines)
}

/// Reading two runs of lines one after the other is reading the first, then
/// the second from where the first left the parser.
pub proof fn lemma_run_append(m: ParserModel, a: Seq<Seq<char>>, b: Seq<Seq<char>>)
    ensures
        run(m, a + b) == match run(m, a) {
            Err(e) => Err(e),
            Ok((m1, o1)) => match run(m1, b) {
                Err(e) => Err(e),
                Ok((m2, o2)) => Ok::<(ParserModel, Seq<PartsModel>), Error>((m2, o1 + o2)),
            },
        },
        run_panics(m, a + b) == (run_panics(m, a) || match run(m, a) {
            Err(_) => false,
            Ok((m1, _)) => run_panics(m1, b),
        }),
    decreases b.len(),
{
    if b.len() == 0 {
        assert(a + b == a);
        match run(m, a) {
            Err(_) => {},
            Ok((m1, o1)) => {
                assert(o1 + Seq::<PartsModel>::empty() == o1);
            },
        }
    } else {
        lemma_run_append(m, a, b.drop_last());
        assert((a + b).drop_last() == a + b.drop_last());
        assert((a + b).last() == b.last());
        match run(m, a) {
            Err(_) => {},
            Ok((m1, o1)) => {
                match run(m1, b.drop_last()) {
                    Err(_) => {},
                    Ok((m2, o2)) => {
                        match step(m2, b.last()) {
                            Err(_) => {},
                            Ok((m3, p)) => {
                                match p {
                                    Some(parts) => {
                                        assert(o1 + o2.push(parts) == (o1 + o2).push(parts));
                                    },
                                    None => {},
                                }
                            },
                        }
                    },
                }
            },
        }
    }
}

} // verus!
