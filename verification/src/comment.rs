//! Comments in proofs and drafts, written as YAML block scalars, and random
//! ids.
use vstd::prelude::*;
use crate::common::{base64_encode, base64_url_nopad, is_base64_url_char};
use crate::crypto::random_vec;
use crate::text::{lines, push_str, split_lines};

verus! {

/// Each line indented by two spaces and ended by a line ending.
pub open spec fn indented(ls: Seq<Seq<char>>) -> Seq<char>
    decreases ls.len(),
{
    if ls.len() == 0 {
        Seq::empty()
    } else {
        indented(ls.drop_last()) + "  "@ + ls.last() + seq!['\n']
    }
}

/// The header of a comment block.
pub open spec fn comment_header() -> Seq<char> {
    "comment: |-\n"@
}

/// A comment as a proof writes it: nothing for an empty comment, else the
/// header and the indented lines.
pub open spec fn comment_proof_text(comment: Seq<char>) -> Seq<char> {
    if comment.len() == 0 {
        Seq::empty()
    } else {
        comment_header() + indented(lines(comment))
    }
}

/// A comment as a draft writes it: always the header and the indented lines,
/// and for an empty comment one indented empty line to write into.
pub open spec fn comment_draft_text(comment: Seq<char>) -> Seq<char> {
    comment_header() + indented(lines(comment)) + if comment.len() == 0 {
        "  \n"@
    } else {
        Seq::empty()
    }
}

fn push_indented(out: &mut String, comment: &str)
    ensures
        final(out)@ == old(out)@ + indented(lines(comment@)),
{
    let ls = split_lines(comment);
    let ghost views = ls@.map_values(|l: String| l@);
    let mut i: usize = 0;
    assert(views.take(0) == Seq::<Seq<char>>::empty());
    while i < ls.len()
        invariant
            i <= ls.len(),
            views == ls@.map_values(|l: String| l@),
            views == lines(comment@),
            out@ == old(out)@ + indented(views.take(i as int)),
        decreases ls.len() - i,
    {
        push_str(out, "  ");
        push_str(out, ls[i].as_str());
        out.push('\n');
        i = i + 1;
        assert(views.take(i as int).drop_last() == views.take(i - 1));
        assert(views.take(i as int).last() == ls@[i - 1]@);
        assert(out@ =~= old(out)@ + indented(views.take(i as int)));
    }
    assert(views.take(ls.len() as int) == views);
}

/// Appends the comment as a proof writes it (see [`comment_proof_text`]).
pub fn write_comment_proof(comment: &str, out: &mut String)
    ensures
        final(out)@ == old(out)@ + comment_proof_text(comment@),
{
    if comment.is_empty() {
        assert(old(out)@ + comment_proof_text(comment@) =~= old(out)@);
        return;
    }
    push_str(out, "comment: |-\n");
    push_indented(out, comment);
    assert(out@ =~= old(out)@ + comment_proof_text(comment@));
}

/// Appends the comment as a draft writes it (see [`comment_draft_text`]).
pub fn write_comment_draft(comment: &str, out: &mut String)
    ensures
        final(out)@ == old(out)@ + comment_draft_text(comment@),
{
    push_str(out, "comment: |-\n");
    push_indented(out, comment);
    if comment.is_empty() {
        push_str(out, "  \n");
    }
    assert(out@ =~= old(out)@ + comment_draft_text(comment@));
}

/// A new random id: 32 random bytes in base64 (43 characters of the URL-safe
/// alphabet).
pub fn random_id_str() -> (s: String)
    ensures
        s@.len() == 43,
        exists|b: Seq<u8>| b.len() == 32 && s@ == base64_url_nopad(b),
        forall|i: int| 0 <= i < s@.len() ==> is_base64_url_char(#[trigger] s@[i]),
{
    let out = random_vec(32);
    let s = base64_encode(out.as_slice());
    assert(s@ == base64_url_nopad(out@));
    s
}

} // verus!
