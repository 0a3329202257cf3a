//! The text a proof is edited as: comments on what is being edited, the
//! draft, and the documentation of the proof's fields as comments.
use vstd::prelude::*;
use crate::proofs::Draft;
use crate::text::{lines, push_str, split_lines};
use crate::version::{version_text, Version};

verus! {

/// Each line as a comment: `# `, the line, a line ending.
pub open spec fn commented(ls: Seq<Seq<char>>) -> Seq<char>
    decreases ls.len(),
{
    if ls.len() == 0 {
        Seq::empty()
    } else {
        commented(ls.drop_last()) + "# "@ + ls.last() + "\n"@
    }
}

/// A comment line where there is a text.
pub open spec fn comment_line(prefix: Seq<char>, text: Option<Seq<char>>) -> Seq<char> {
    match text {
        Some(t) => "# "@ + prefix + t + "\n"@,
        None => Seq::empty(),
    }
}

/// The text a proof is edited as: where it replaces an existing proof, the
/// date of that one; the draft's title; an extra comment; the version a
/// diff review starts from; the draft's body and what follows it; a blank
/// line; and the documentation, each line a comment.
pub open spec fn edit_text_of(
    previous_date: Option<Seq<char>>,
    draft: Draft,
    extra_leading_comment: Option<Seq<char>>,
    base_version: Option<(u64, u64, u64, Seq<char>, Seq<char>)>,
    extra_follow: Seq<char>,
    documentation: Seq<char>,
) -> Seq<char> {
    comment_line("Overwriting existing proof created on "@, previous_date) + "# "@ + draft.title@
        + "\n"@ + comment_line(Seq::empty(), extra_leading_comment) + comment_line(
        "Diff base version: "@,
        match base_version {
            Some(v) => Some(version_text(v)),
            None => None,
        },
    ) + draft.body@ + extra_follow + "\n\n"@ + commented(lines(documentation))
}

fn push_comment_line(s: &mut String, prefix: &str, text: Option<&str>)
    ensures
        final(s)@ == old(s)@ + comment_line(
            prefix@,
            match text {
                Some(t) => Some(t@),
                None => None,
            },
        ),
{
    proof {
        reveal_strlit("# ");
        reveal_strlit("\n");
    }
    match text {
        Some(t) => {
            push_str(s, "# ");
            push_str(s, prefix);
            push_str(s, t);
            push_str(s, "\n");
            assert(s@ =~= old(s)@ + ("# "@ + prefix@ + t@ + "\n"@));
        },
        None => {
            assert(s@ =~= old(s)@ + Seq::<char>::empty());
        },
    }
}

/// The text a proof is edited as (see [`edit_text_of`]); `previous_date`
/// is the date of the proof it replaces, as text.
pub fn proof_edit_text(
    previous_date: Option<&str>,
    draft: &Draft,
    extra_leading_comment: Option<&str>,
    base_version: Option<&Version>,
    extra_follow: &str,
    documentation: &str,
) -> (s: String)
    ensures
        s@ == edit_text_of(
            match previous_date {
                Some(d) => Some(d@),
                None => None,
            },
            *draft,
            match extra_leading_comment {
                Some(c) => Some(c@),
                None => None,
            },
            match base_version {
                Some(v) => Some(v@),
                None => None,
            },
            extra_follow@,
            documentation@,
        ),
{
    proof {
        reveal_strlit("Overwriting existing proof created on ");
        reveal_strlit("Diff base version: ");
        reveal_strlit("");
        reveal_strlit("# ");
        reveal_strlit("\n");
        reveal_strlit("\n\n");
    }
    let mut s = String::new();
    push_comment_line(&mut s, "Overwriting existing proof created on ", previous_date);
    push_str(&mut s, "# ");
    push_str(&mut s, draft.title());
    push_str(&mut s, "\n");
    push_comment_line(&mut s, "", extra_leading_comment);
    match base_version {
        Some(v) => {
            let t = v.to_string();
            push_comment_line(&mut s, "Diff base version: ", Some(t.as_str()));
        },
        None => push_comment_line(&mut s, "Diff base version: ", None),
    }
    push_str(&mut s, draft.body());
    push_str(&mut s, extra_follow);
    push_str(&mut s, "\n\n");
    let ghost head = s@;
    let doc_lines = split_lines(documentation);
    let ghost ls = lines(documentation@);
    let mut i: usize = 0;
    assert(ls.take(0) =~= Seq::<Seq<char>>::empty());
    while i < doc_lines.len()
        invariant
            i <= doc_lines.len(),
            doc_lines@.map_values(|l: String| l@) == ls,
            s@ == head + commented(ls.take(i as int)),
        decreases doc_lines.len() - i,
    {
        assert(ls.take(i + 1).drop_last() == ls.take(i as int));
        assert(ls.take(i + 1).last() == doc_lines@[i as int]@);
        push_str(&mut s, "# ");
        push_str(&mut s, doc_lines[i].as_str());
        push_str(&mut s, "\n");
        i = i + 1;
        assert(s@ =~= head + commented(ls.take(i as int)));
    }
    assert(ls.take(doc_lines.len() as int) == ls);
    assert(s@ =~= edit_text_of(
        match previous_date {
            Some(d) => Some(d@),
            None => None,
        },
        *draft,
        match extra_leading_comment {
            Some(c) => Some(c@),
            None => None,
        },
        match base_version {
            Some(v) => Some(v@),
            None => None,
        },
        extra_follow@,
        documentation@,
    ));
    s
}

} // verus!
