//! The log of a walk through the web of trust, as `cargo crev wot log`
//! prints it.
use vstd::prelude::*;
use crate::cli::{spaces, url_to_status_str, UrlOfId, BLUE, GREEN, RED, YELLOW};
use crate::common::base64_url_nopad;
use crate::id::Id;
use crate::text::{decimal, push_decimal, push_str};
use crate::trust::{trust_level_text, TrustLevel};
use crate::verify_output::{colored_view, left_aligned, right_aligned, ColoredText};

verus! {

/// An id reached in the walk: the trust it got and how far it is.
#[derive(Debug)]
pub struct TraverseLogNode {
    pub id: Id,
    pub effective_trust: TrustLevel,
    pub total_distance: u64,
}

/// A trust proof met in the walk: the id it trusts, the trust it gives and
/// the trust that follows, the distance it adds (none where it is too far
/// to follow), and whether it changed anything or was ignored, and why.
#[derive(Debug)]
pub struct TraverseLogEdge {
    pub to: Id,
    pub direct_trust: TrustLevel,
    pub effective_trust: TrustLevel,
    pub relative_distance: Option<u64>,
    pub no_change: bool,
    pub ignored_distrusted: bool,
    pub ignored_overriden: bool,
    pub ignored_too_far: bool,
    pub ignored_trust_too_low: bool,
}

/// One step of the walk.
#[derive(Debug)]
pub enum TraverseLogItem {
    Node(TraverseLogNode),
    Edge(TraverseLogEdge),
}

/// `s` centered in `w` characters, as `{:^w}` formats it: the extra space,
/// if any, on the right.
pub open spec fn centered(s: Seq<char>, w: nat) -> Seq<char> {
    if s.len() < w {
        let pad = (w - s.len()) as nat;
        spaces(pad / 2) + s + spaces((pad - pad / 2) as nat)
    } else {
        s
    }
}

/// The header of the log.
pub open spec fn log_header_text() -> Seq<char> {
    centered("TRUST-FROM-ID"@, 43) + spaces(10) + right_aligned("TRUST"@, 6) + " "@ + right_aligned(
        "DIST"@,
        4,
    ) + "\n"@ + "\\_ status URL\n"@ + "  "@ + centered("TRUST-TO-ID"@, 43) + " "@ + right_aligned(
        "D.TRST"@,
        6,
    ) + " "@ + right_aligned("E.TRST"@, 6) + " +"@ + left_aligned("DIS"@, 3) + " notes\n"@
        + "  \\_ status URL\n"@
}

fn push_spaces(s: &mut String, n: usize)
    ensures
        final(s)@ == old(s)@ + spaces(n as nat),
{
    let mut i: usize = 0;
    while i < n
        invariant
            i <= n,
            s@ == old(s)@ + spaces(i as nat),
        decreases n - i,
    {
        s.push(' ');
        i = i + 1;
        assert(s@ =~= old(s)@ + spaces(i as nat));
    }
}

fn push_aligned(s: &mut String, t: &str, w: usize, right: bool)
    ensures
        final(s)@ == old(s)@ + (if right {
            right_aligned(t@, w as nat)
        } else {
            left_aligned(t@, w as nat)
        }),
{
    let n = crate::text::chars_of(t).len();
    if right && n < w {
        push_spaces(s, w - n);
    }
    push_str(s, t);
    if !right && n < w {
        push_spaces(s, w - n);
    }
    assert(s@ =~= old(s)@ + (if right {
        right_aligned(t@, w as nat)
    } else {
        left_aligned(t@, w as nat)
    }));
}

fn push_centered(s: &mut String, t: &str, w: usize)
    ensures
        final(s)@ == old(s)@ + centered(t@, w as nat),
{
    let n = crate::text::chars_of(t).len();
    if n < w {
        let pad = w - n;
        push_spaces(s, pad / 2);
        push_str(s, t);
        push_spaces(s, pad - pad / 2);
    } else {
        push_str(s, t);
    }
    assert(s@ =~= old(s)@ + centered(t@, w as nat));
}

/// The header of the log (see [`log_header_text`]), printed where both
/// outputs are terminals.
pub fn log_header() -> (s: String)
    ensures
        s@ == log_header_text(),
{
    proof {
        reveal_strlit("TRUST-FROM-ID");
        reveal_strlit("TRUST");
        reveal_strlit("DIST");
        reveal_strlit(" ");
        reveal_strlit("\n");
        reveal_strlit("\\_ status URL\n");
        reveal_strlit("  ");
        reveal_strlit("TRUST-TO-ID");
        reveal_strlit("D.TRST");
        reveal_strlit("E.TRST");
        reveal_strlit(" +");
        reveal_strlit("DIS");
        reveal_strlit(" notes\n");
        reveal_strlit("  \\_ status URL\n");
    }
    let mut s = String::new();
    push_centered(&mut s, "TRUST-FROM-ID", 43);
    push_spaces(&mut s, 10);
    push_aligned(&mut s, "TRUST", 6, true);
    push_str(&mut s, " ");
    push_aligned(&mut s, "DIST", 4, true);
    push_str(&mut s, "\n");
    push_str(&mut s, "\\_ status URL\n");
    push_str(&mut s, "  ");
    push_centered(&mut s, "TRUST-TO-ID", 43);
    push_str(&mut s, " ");
    push_aligned(&mut s, "D.TRST", 6, true);
    push_str(&mut s, " ");
    push_aligned(&mut s, "E.TRST", 6, true);
    push_str(&mut s, " +");
    push_aligned(&mut s, "DIS", 3, false);
    push_str(&mut s, " notes\n");
    push_str(&mut s, "  \\_ status URL\n");
    assert(s@ =~= log_header_text());
    s
}

/// The mark and the url shown for where an id's url comes from.
pub open spec fn url_status(u: UrlOfId) -> (Seq<char>, Seq<char>) {
    match u {
        UrlOfId::NoUrl => (""@, ""@),
        UrlOfId::FromSelfVerified(u) => ("=="@, u.url@),
        UrlOfId::FromSelf(u) => ("~="@, u.url@),
        UrlOfId::FromOthers(u) => ("??"@, u.url@),
    }
}

/// The line under an id: where its url comes from, and the url.
pub open spec fn url_line(indent: Seq<char>, u: UrlOfId) -> Seq<char> {
    indent + "\\_ "@ + url_status(u).0 + " "@ + url_status(u).1 + "\n"@
}

/// The distance a trust proof adds: `+d`, or `inf` where it is too far.
pub open spec fn distance_text(d: Option<u64>) -> Seq<char> {
    match d {
        Some(d) => "+"@ + decimal(d as nat),
        None => "inf"@,
    }
}

/// The notes on an ignored trust proof: each reason, after `; `.
pub open spec fn ignored_notes(e: TraverseLogEdge) -> Seq<(Seq<char>, Option<u32>)> {
    (if e.ignored_distrusted {
        seq![("; "@, None), ("distrusted"@, Some(RED))]
    } else {
        Seq::empty()
    }) + (if e.ignored_overriden {
        seq![("; "@, None), ("overriden"@, Some(YELLOW))]
    } else {
        Seq::empty()
    }) + (if e.ignored_too_far {
        seq![("; "@, None), ("too far"@, Some(YELLOW))]
    } else {
        Seq::empty()
    }) + (if e.ignored_trust_too_low {
        seq![("; "@, None), ("trust too low"@, Some(YELLOW))]
    } else {
        Seq::empty()
    })
}

/// What the log shows of one step, given where the url of its id comes
/// from: a reached id in green with its trust and distance; a trust proof,
/// indented, with the id it trusts in blue, the direct and resulting
/// trust, the added distance, whether it changed anything and why it was
/// ignored; each followed by the id's url.
pub open spec fn log_item_row(item: TraverseLogItem, url: UrlOfId) -> Seq<(Seq<char>, Option<u32>)> {
    match item {
        TraverseLogItem::Node(n) => seq![
            (base64_url_nopad(n.id@), Some(GREEN)),
            (spaces(10) + right_aligned(trust_level_text(n.effective_trust), 6) + " "@
                + right_aligned(decimal(n.total_distance as nat), 4) + "\n"@, None),
            (url_line(Seq::empty(), url), None),
        ],
        TraverseLogItem::Edge(e) => seq![
            ("  "@, None),
            (base64_url_nopad(e.to@), Some(BLUE)),
            (" "@ + right_aligned(trust_level_text(e.direct_trust), 6) + " "@ + right_aligned(
                trust_level_text(e.effective_trust),
                6,
            ) + " "@ + right_aligned(distance_text(e.relative_distance), 4) + " "@, None),
            if e.no_change {
                ("no change"@, Some(YELLOW))
            } else {
                ("queued"@, Some(GREEN))
            },
        ] + ignored_notes(e) + seq![("\n"@, None), (url_line("  "@, url), None)],
    }
}

fn piece(t: String, color: Option<u32>) -> (r: ColoredText)
    ensures
        r.text@ == t@,
        r.color == color,
{
    ColoredText { text: t, color }
}

fn text_of(t: &str) -> (s: String)
    ensures
        s@ == t@,
{
    let mut s = String::new();
    push_str(&mut s, t);
    assert(s@ =~= t@);
    s
}

fn url_line_of(indent: &str, url: &UrlOfId) -> (s: String)
    ensures
        s@ == url_line(indent@, *url),
{
    proof {
        reveal_strlit("\\_ ");
        reveal_strlit(" ");
        reveal_strlit("\n");
    }
    let (status, u) = url_to_status_str(url);
    proof {
        reveal_strlit("");
        reveal_strlit("==");
        reveal_strlit("~=");
        reveal_strlit("??");
    }
    assert(status@ == url_status(*url).0 && u@ == url_status(*url).1);
    let mut s = text_of(indent);
    push_str(&mut s, "\\_ ");
    push_str(&mut s, status);
    push_str(&mut s, " ");
    push_str(&mut s, u);
    push_str(&mut s, "\n");
    assert(s@ =~= url_line(indent@, *url));
    s
}

fn push_note(r: &mut Vec<ColoredText>, on: bool, note: &str, color: u32)
    ensures
        colored_view(final(r)@) == colored_view(old(r)@) + (if on {
            seq![("; "@, None), (note@, Some(color))]
        } else {
            Seq::empty()
        }),
{
    proof {
        reveal_strlit("; ");
    }
    if on {
        r.push(piece(text_of("; "), None));
        r.push(piece(text_of(note), Some(color)));
        assert(colored_view(r@) =~= colored_view(old(r)@) + seq![
            ("; "@, None),
            (note@, Some(color)),
        ]);
    } else {
        assert(colored_view(r@) =~= colored_view(old(r)@) + Seq::empty());
    }
}

fn trust_text(t: TrustLevel) -> (s: &'static str)
    ensures
        s@ == trust_level_text(t),
{
    t.as_str()
}

/// What the log shows of one step (see [`log_item_row`]).
pub fn log_item(item: &TraverseLogItem, url: &UrlOfId) -> (r: Vec<ColoredText>)
    requires
        match *item {
            TraverseLogItem::Node(n) => 4 * (n.id@.len() / 3) + 3 <= usize::MAX,
            TraverseLogItem::Edge(e) => 4 * (e.to@.len() / 3) + 3 <= usize::MAX,
        },
    ensures
        colored_view(r@) == log_item_row(*item, *url),
{
    proof {
        reveal_strlit(" ");
        reveal_strlit("\n");
        reveal_strlit("  ");
        reveal_strlit("");
    }
    let mut r: Vec<ColoredText> = Vec::new();
    match item {
        TraverseLogItem::Node(n) => {
            r.push(piece(n.id.to_string(), Some(GREEN)));
            let mut t = String::new();
            push_spaces(&mut t, 10);
            push_aligned(&mut t, trust_text(n.effective_trust), 6, true);
            push_str(&mut t, " ");
            let mut d = String::new();
            push_decimal(&mut d, n.total_distance);
            assert(d@ =~= decimal(n.total_distance as nat));
            push_aligned(&mut t, d.as_str(), 4, true);
            push_str(&mut t, "\n");
            r.push(piece(t, None));
            r.push(piece(url_line_of("", url), None));
            assert(colored_view(r@) =~= log_item_row(*item, *url));
        },
        TraverseLogItem::Edge(e) => {
            proof {
                reveal_strlit("+");
                reveal_strlit("inf");
                reveal_strlit("no change");
                reveal_strlit("queued");
                reveal_strlit("distrusted");
                reveal_strlit("overriden");
                reveal_strlit("too far");
                reveal_strlit("trust too low");
            }
            r.push(piece(text_of("  "), None));
            r.push(piece(e.to.to_string(), Some(BLUE)));
            let mut t = text_of(" ");
            push_aligned(&mut t, trust_text(e.direct_trust), 6, true);
            push_str(&mut t, " ");
            push_aligned(&mut t, trust_text(e.effective_trust), 6, true);
            push_str(&mut t, " ");
            let mut d = String::new();
            match e.relative_distance {
                Some(x) => {
                    push_str(&mut d, "+");
                    push_decimal(&mut d, x);
                },
                None => push_str(&mut d, "inf"),
            }
            assert(d@ =~= distance_text(e.relative_distance));
            push_aligned(&mut t, d.as_str(), 4, true);
            push_str(&mut t, " ");
            r.push(piece(t, None));
            if e.no_change {
                r.push(piece(text_of("no change"), Some(YELLOW)));
            } else {
                r.push(piece(text_of("queued"), Some(GREEN)));
            }
            let ghost head = colored_view(r@);
            assert(head =~= seq![
                ("  "@, None),
                (base64_url_nopad(e.to@), Some(BLUE)),
                (" "@ + right_aligned(trust_level_text(e.direct_trust), 6) + " "@ + right_aligned(
                    trust_level_text(e.effective_trust),
                    6,
                ) + " "@ + right_aligned(distance_text(e.relative_distance), 4) + " "@, None),
                if e.no_change {
                    ("no change"@, Some(YELLOW))
                } else {
                    ("queued"@, Some(GREEN))
                },
            ]);
            push_note(&mut r, e.ignored_distrusted, "distrusted", RED);
            push_note(&mut r, e.ignored_overriden, "overriden", YELLOW);
            push_note(&mut r, e.ignored_too_far, "too far", YELLOW);
            push_note(&mut r, e.ignored_trust_too_low, "trust too low", YELLOW);
            assert(colored_view(r@) =~= head + ignored_notes(*e));
            let ghost mid = colored_view(r@);
            r.push(piece(text_of("\n"), None));
            r.push(piece(url_line_of("  ", url), None));
            assert(colored_view(r@) =~= mid + seq![("\n"@, None), (url_line("  "@, *url), None)]);
            assert(colored_view(r@) =~= log_item_row(*item, *url));
        },
    }
    r
}

/// What the log shows of the steps, one after the other, each with where
/// the url of its id comes from.
pub open spec fn log_rows(items: Seq<TraverseLogItem>, urls: Seq<UrlOfId>) -> Seq<
    (Seq<char>, Option<u32>),
>
    decreases items.len(),
{
    if items.len() == 0 || urls.len() < items.len() {
        Seq::empty()
    } else {
        log_rows(items.drop_last(), urls.take(items.len() - 1)) + log_item_row(
            items.last(),
            urls[items.len() - 1],
        )
    }
}

/// The ids of the steps can be displayed.
pub open spec fn log_ids_displayable(items: Seq<TraverseLogItem>) -> bool {
    forall|i: int|
        0 <= i < items.len() ==> match #[trigger] items[i] {
            TraverseLogItem::Node(n) => 4 * (n.id@.len() / 3) + 3 <= usize::MAX,
            TraverseLogItem::Edge(e) => 4 * (e.to@.len() / 3) + 3 <= usize::MAX,
        }
}

/// The log of a walk through the web of trust: the header, where both
/// outputs are terminals, and what it shows of each step (see
/// [`log_rows`]); `urls` tells where the url of each step's id comes from.
pub fn print_log(log: &Vec<TraverseLogItem>, urls: &Vec<UrlOfId>, is_tty: bool) -> (r: (
    String,
    Vec<ColoredText>,
))
    requires
        urls@.len() == log@.len(),
        log_ids_displayable(log@),
    ensures
        r.0@ == (if is_tty {
            log_header_text()
        } else {
            Seq::empty()
        }),
        colored_view(r.1@) == log_rows(log@, urls@),
{
    let header = if is_tty {
        log_header()
    } else {
        String::new()
    };
    let mut rows: Vec<ColoredText> = Vec::new();
    let mut i: usize = 0;
    assert(log_rows(log@.take(0), urls@.take(0)) =~= Seq::empty());
    while i < log.len()
        invariant
            i <= log.len(),
            urls@.len() == log@.len(),
            log_ids_displayable(log@),
            colored_view(rows@) == log_rows(log@.take(i as int), urls@.take(i as int)),
        decreases log.len() - i,
    {
        assert(log@.take(i + 1).drop_last() == log@.take(i as int));
        assert(urls@.take(i + 1).take(i as int) == urls@.take(i as int));
        assert(log@.take(i + 1).last() == log@[i as int]);
        assert(urls@.take(i + 1)[i as int] == urls@[i as int]);
        let mut more = log_item(&log[i], &urls[i]);
        let ghost before = rows@;
        let ghost added = more@;
        rows.append(&mut more);
        assert(colored_view(rows@) =~= colored_view(before) + colored_view(added));
        i = i + 1;
    }
    assert(log@.take(log.len() as int) == log@);
    assert(urls@.take(log.len() as int) == urls@);
    (header, rows)
}

/// Does a piece of `pieces` read `text`?
pub open spec fn has_piece(pieces: Seq<(Seq<char>, Option<u32>)>, text: Seq<char>) -> bool {
    exists|i: int| 0 <= i < pieces.len() && (#[trigger] pieces[i]).0 == text
}

proof fn lemma_has_piece_concat(a: Seq<(Seq<char>, Option<u32>)>, b: Seq<(Seq<char>, Option<u32>)>, t: Seq<char>)
    ensures
        has_piece(a + b, t) == (has_piece(a, t) || has_piece(b, t)),
{
    if has_piece(a + b, t) {
        let i = choose|i: int| 0 <= i < (a + b).len() && (#[trigger] (a + b)[i]).0 == t;
        if i < a.len() {
            assert(a[i] == (a + b)[i]);
        } else {
            assert(b[i - a.len()] == (a + b)[i]);
        }
    }
    if has_piece(a, t) {
        let i = choose|i: int| 0 <= i < a.len() && (#[trigger] a[i]).0 == t;
        assert((a + b)[i] == a[i]);
    }
    if has_piece(b, t) {
        let i = choose|i: int| 0 <= i < b.len() && (#[trigger] b[i]).0 == t;
        assert((a + b)[a.len() + i] == b[i]);
    }
}

proof fn lemma_note_pieces(on: bool, note: Seq<char>, color: Option<u32>, t: Seq<char>)
    ensures
        has_piece(
            if on {
                seq![("; "@, None), (note, color)]
            } else {
                Seq::empty()
            },
            t,
        ) == (on && (t == "; "@ || t == note)),
{
    let s: Seq<(Seq<char>, Option<u32>)> = if on {
        seq![("; "@, None), (note, color)]
    } else {
        Seq::empty()
    };
    if on {
        if t == "; "@ {
            assert(s[0].0 == t);
        }
        if t == note {
            assert(s[1].0 == t);
        }
    }
}

/// The pieces of an edge's row between its fixed part (indent, id, trusts,
/// distance, whether it changed anything) and its line end and url: the
/// notes on why the trust proof was ignored.
pub open spec fn edge_row_notes(e: TraverseLogEdge, url: UrlOfId) -> Seq<(Seq<char>, Option<u32>)> {
    let row = log_item_row(TraverseLogItem::Edge(e), url);
    row.subrange(4, row.len() - 2)
}

/// Each reason a trust proof was ignored is noted in its row exactly when
/// the proof was ignored for that reason: `distrusted`, `overriden`, `too
/// far` and `trust too low` each stand for their own flag.
pub proof fn lemma_edge_notes_match_flags(e: TraverseLogEdge, url: UrlOfId)
    ensures
        log_item_row(TraverseLogItem::Edge(e), url).len() >= 6,
        has_piece(edge_row_notes(e, url), "distrusted"@) == e.ignored_distrusted,
        has_piece(edge_row_notes(e, url), "overriden"@) == e.ignored_overriden,
        has_piece(edge_row_notes(e, url), "too far"@) == e.ignored_too_far,
        has_piece(edge_row_notes(e, url), "trust too low"@) == e.ignored_trust_too_low,
{
    reveal_strlit("; ");
    reveal_strlit("distrusted");
    reveal_strlit("overriden");
    reveal_strlit("too far");
    reveal_strlit("trust too low");
    let n = ignored_notes(e);
    let row = log_item_row(TraverseLogItem::Edge(e), url);
    assert(edge_row_notes(e, url) =~= n);
    let d = if e.ignored_distrusted {
        seq![("; "@, None), ("distrusted"@, Some(RED))]
    } else {
        Seq::<(Seq<char>, Option<u32>)>::empty()
    };
    let o = if e.ignored_overriden {
        seq![("; "@, None), ("overriden"@, Some(YELLOW))]
    } else {
        Seq::<(Seq<char>, Option<u32>)>::empty()
    };
    let f = if e.ignored_too_far {
        seq![("; "@, None), ("too far"@, Some(YELLOW))]
    } else {
        Seq::<(Seq<char>, Option<u32>)>::empty()
    };
    let l = if e.ignored_trust_too_low {
        seq![("; "@, None), ("trust too low"@, Some(YELLOW))]
    } else {
        Seq::<(Seq<char>, Option<u32>)>::empty()
    };
    assert(n == d + o + f + l);
    lemma_notes_have(e, d, o, f, l, "distrusted"@);
    lemma_notes_have(e, d, o, f, l, "overriden"@);
    lemma_notes_have(e, d, o, f, l, "too far"@);
    lemma_notes_have(e, d, o, f, l, "trust too low"@);
    assert("distrusted"@.len() == 10 && "overriden"@.len() == 9 && "too far"@.len() == 7
        && "trust too low"@.len() == 13 && "; "@.len() == 2);
}

proof fn lemma_notes_have(
    e: TraverseLogEdge,
    d: Seq<(Seq<char>, Option<u32>)>,
    o: Seq<(Seq<char>, Option<u32>)>,
    f: Seq<(Seq<char>, Option<u32>)>,
    l: Seq<(Seq<char>, Option<u32>)>,
    t: Seq<char>,
)
    requires
        d == (if e.ignored_distrusted {
            seq![("; "@, None), ("distrusted"@, Some(RED))]
        } else {
            Seq::<(Seq<char>, Option<u32>)>::empty()
        }),
        o == (if e.ignored_overriden {
            seq![("; "@, None), ("overriden"@, Some(YELLOW))]
        } else {
            Seq::<(Seq<char>, Option<u32>)>::empty()
        }),
        f == (if e.ignored_too_far {
            seq![("; "@, None), ("too far"@, Some(YELLOW))]
        } else {
            Seq::<(Seq<char>, Option<u32>)>::empty()
        }),
        l == (if e.ignored_trust_too_low {
            seq![("; "@, None), ("trust too low"@, Some(YELLOW))]
        } else {
            Seq::<(Seq<char>, Option<u32>)>::empty()
        }),
    ensures
        has_piece(d + o + f + l, t) == ((e.ignored_distrusted && (t == "; "@ || t == "distrusted"@))
            || (e.ignored_overriden && (t == "; "@ || t == "overriden"@)) || (e.ignored_too_far && (t
            == "; "@ || t == "too far"@)) || (e.ignored_trust_too_low && (t == "; "@ || t
            == "trust too low"@))),
{
    lemma_has_piece_concat(d + o + f, l, t);
    lemma_has_piece_concat(d + o, f, t);
    lemma_has_piece_concat(d, o, t);
    lemma_note_pieces(e.ignored_distrusted, "distrusted"@, Some(RED), t);
    lemma_note_pieces(e.ignored_overriden, "overriden"@, Some(YELLOW), t);
    lemma_note_pieces(e.ignored_too_far, "too far"@, Some(YELLOW), t);
    lemma_note_pieces(e.ignored_trust_too_low, "trust too low"@, Some(YELLOW), t);
}

} // verus!
