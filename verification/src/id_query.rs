//! The order in which `cargo crev id query all` lists the known ids: the
//! most trusted first, then by url (ids without one first), then by id.
use vstd::prelude::*;
use vstd::seq_lib::{to_multiset_build, to_multiset_remove};
use crate::cli::{url_to_status_str, UrlOfId};
use crate::common::base64_url_nopad;
use crate::id::Id;
use crate::text::push_str;
use crate::trust::{trust_level_rank, trust_level_text, TrustLevel};
use crate::trust_log::url_status;
use crate::verify_output::{entries_within, lemma_insert_entry, left_aligned};

verus! {

/// Lexicographic order of integer sequences: `a` comes before `b`.
pub open spec fn ints_lt(a: Seq<int>, b: Seq<int>) -> bool
    decreases a.len(),
{
    if a.len() == 0 {
        b.len() > 0
    } else if b.len() == 0 {
        false
    } else if a[0] < b[0] {
        true
    } else if a[0] > b[0] {
        false
    } else {
        ints_lt(a.drop_first(), b.drop_first())
    }
}

/// The code points of a text.
pub open spec fn code_points(s: Seq<char>) -> Seq<int> {
    s.map_values(|c: char| (c as u32) as int)
}

/// The values of bytes.
pub open spec fn byte_values(s: Seq<u8>) -> Seq<int> {
    s.map_values(|b: u8| b as int)
}

/// The order of texts (`str`'s order: by bytes, which orders UTF-8 texts by
/// their characters).
pub open spec fn text_lt(a: Seq<char>, b: Seq<char>) -> bool {
    ints_lt(code_points(a), code_points(b))
}

/// The order of optional urls: none first, then by text.
pub open spec fn url_lt(a: Option<Seq<char>>, b: Option<Seq<char>>) -> bool {
    match (a, b) {
        (None, Some(_)) => true,
        (Some(x), Some(y)) => text_lt(x, y),
        _ => false,
    }
}

/// An id as it is listed: its effective trust, a url known for it, and its
/// bytes.
pub type IdEntryView = (TrustLevel, Option<Seq<char>>, Seq<u8>);

/// `a` is listed before `b`: it is trusted more; or as much and its url
/// comes first; or both are the same and its bytes come first.
pub open spec fn listed_before(a: IdEntryView, b: IdEntryView) -> bool {
    ||| trust_level_rank(a.0) > trust_level_rank(b.0)
    ||| trust_level_rank(a.0) == trust_level_rank(b.0) && url_lt(a.1, b.1)
    ||| trust_level_rank(a.0) == trust_level_rank(b.0) && a.1 == b.1 && ints_lt(
        byte_values(a.2),
        byte_values(b.2),
    )
}

proof fn lemma_ints_lt_asym(a: Seq<int>, b: Seq<int>)
    ensures
        ints_lt(a, b) ==> !ints_lt(b, a),
    decreases a.len(),
{
    if a.len() > 0 && b.len() > 0 && a[0] == b[0] {
        lemma_ints_lt_asym(a.drop_first(), b.drop_first());
    }
}

proof fn lemma_ints_lt_trans(a: Seq<int>, b: Seq<int>, c: Seq<int>)
    ensures
        ints_lt(a, b) && ints_lt(b, c) ==> ints_lt(a, c),
    decreases a.len(),
{
    if a.len() > 0 && b.len() > 0 && c.len() > 0 && a[0] == b[0] && b[0] == c[0] {
        lemma_ints_lt_trans(a.drop_first(), b.drop_first(), c.drop_first());
    }
}

proof fn lemma_url_lt(a: Option<Seq<char>>, b: Option<Seq<char>>, c: Option<Seq<char>>)
    ensures
        url_lt(a, b) ==> !url_lt(b, a),
        url_lt(a, b) && url_lt(b, c) ==> url_lt(a, c),
{
    match (a, b) {
        (Some(x), Some(y)) => {
            lemma_ints_lt_asym(code_points(x), code_points(y));
            match c {
                Some(z) => lemma_ints_lt_trans(code_points(x), code_points(y), code_points(z)),
                None => {},
            }
        },
        _ => {},
    }
}

/// Being listed before another id is a strict order: never both ways, and
/// transitive.
pub proof fn lemma_listed_before_strict(a: IdEntryView, b: IdEntryView, c: IdEntryView)
    ensures
        listed_before(a, b) ==> !listed_before(b, a),
        listed_before(a, b) && listed_before(b, c) ==> listed_before(a, c),
{
    lemma_url_lt(a.1, b.1, c.1);
    lemma_url_lt(b.1, a.1, c.1);
    lemma_ints_lt_asym(byte_values(a.2), byte_values(b.2));
    lemma_ints_lt_trans(byte_values(a.2), byte_values(b.2), byte_values(c.2));
    if a.1 == b.1 {
        assert(!url_lt(a.1, b.1)) by {
            match a.1 {
                Some(x) => lemma_ints_lt_asym(code_points(x), code_points(x)),
                None => {},
            }
        }
    }
    if b.1 == c.1 {
        assert(!url_lt(b.1, c.1)) by {
            match b.1 {
                Some(x) => lemma_ints_lt_asym(code_points(x), code_points(x)),
                None => {},
            }
        }
    }
}

proof fn lemma_ints_lt_from(a: Seq<int>, b: Seq<int>, i: int)
    requires
        0 <= i <= a.len(),
        i <= b.len(),
        a.take(i) == b.take(i),
    ensures
        ints_lt(a, b) == ints_lt(a.skip(i), b.skip(i)),
    decreases i,
{
    if i > 0 {
        assert(a[0] == a.take(i)[0] && b[0] == b.take(i)[0]);
        assert(a.drop_first().take(i - 1) == a.take(i).drop_first());
        assert(b.drop_first().take(i - 1) == b.take(i).drop_first());
        lemma_ints_lt_from(a.drop_first(), b.drop_first(), i - 1);
        assert(a.drop_first().skip(i - 1) == a.skip(i));
        assert(b.drop_first().skip(i - 1) == b.skip(i));
    } else {
        assert(a.skip(0) == a && b.skip(0) == b);
    }
}

/// Does the text `a` come before `b`?
fn text_before(a: &str, b: &str) -> (r: bool)
    ensures
        r == text_lt(a@, b@),
{
    let x = crate::text::chars_of(a);
    let y = crate::text::chars_of(b);
    let ghost xs = code_points(a@);
    let ghost ys = code_points(b@);
    let mut i: usize = 0;
    while i < x.len() && i < y.len()
        invariant
            x@ == a@,
            y@ == b@,
            xs == code_points(a@),
            ys == code_points(b@),
            i <= x.len() && i <= y.len(),
            xs.take(i as int) == ys.take(i as int),
        decreases x.len() - i,
    {
        let cx = x[i] as u32;
        let cy = y[i] as u32;
        assert(xs[i as int] == cx as int);
        assert(ys[i as int] == cy as int);
        if cx != cy {
            proof {
                lemma_ints_lt_from(xs, ys, i as int);
                assert(xs.skip(i as int)[0] == xs[i as int]);
                assert(ys.skip(i as int)[0] == ys[i as int]);
            }
            return cx < cy;
        }
        assert(xs[i as int] == ys[i as int]);
        assert(xs.take(i + 1) =~= xs.take(i as int).push(xs[i as int]));
        assert(ys.take(i + 1) =~= ys.take(i as int).push(ys[i as int]));
        i = i + 1;
    }
    proof {
        lemma_ints_lt_from(xs, ys, i as int);
    }
    x.len() < y.len()
}

/// Do the bytes `a` come before `b`?
fn bytes_before(a: &[u8], b: &[u8]) -> (r: bool)
    ensures
        r == ints_lt(byte_values(a@), byte_values(b@)),
{
    let ghost xs = byte_values(a@);
    let ghost ys = byte_values(b@);
    let mut i: usize = 0;
    while i < a.len() && i < b.len()
        invariant
            xs == byte_values(a@),
            ys == byte_values(b@),
            i <= a.len() && i <= b.len(),
            xs.take(i as int) == ys.take(i as int),
        decreases a.len() - i,
    {
        if a[i] != b[i] {
            proof {
                lemma_ints_lt_from(xs, ys, i as int);
                assert(xs.skip(i as int)[0] == a[i as int]);
                assert(ys.skip(i as int)[0] == b[i as int]);
            }
            return a[i] < b[i];
        }
        assert(xs.take(i + 1) =~= xs.take(i as int).push(xs[i as int]));
        assert(ys.take(i + 1) =~= ys.take(i as int).push(ys[i as int]));
        i = i + 1;
    }
    proof {
        lemma_ints_lt_from(xs, ys, i as int);
    }
    a.len() < b.len()
}

/// An id as it is listed: its effective trust, a url known for it, and the
/// id.
pub type IdEntry = (TrustLevel, Option<String>, Id);

/// The view of a listed id.
pub open spec fn entry_view(e: IdEntry) -> IdEntryView {
    (
        e.0,
        match e.1 {
            Some(u) => Some(u@),
            None => None,
        },
        e.2@,
    )
}

/// The views of listed ids.
pub open spec fn entries_view(v: Seq<IdEntry>) -> Seq<IdEntryView> {
    v.map_values(|e: IdEntry| entry_view(e))
}

fn trust_rank(t: TrustLevel) -> (r: u8)
    ensures
        r == trust_level_rank(t),
{
    match t {
        TrustLevel::Distrust => 0,
        TrustLevel::Nil => 1,
        TrustLevel::Low => 2,
        TrustLevel::Medium => 3,
        TrustLevel::High => 4,
    }
}

fn same_url(a: &Option<String>, b: &Option<String>) -> (r: bool)
    ensures
        r == (match (a, b) {
            (Some(x), Some(y)) => x@ == y@,
            (None, None) => true,
            _ => false,
        }),
{
    match (a, b) {
        (Some(x), Some(y)) => crate::text::str_eq(x.as_str(), y.as_str()),
        (None, None) => true,
        _ => false,
    }
}

/// Is `a` listed before `b` (see [`listed_before`])?
pub fn is_listed_before(a: &IdEntry, b: &IdEntry) -> (r: bool)
    ensures
        r == listed_before(entry_view(*a), entry_view(*b)),
{
    let ra = trust_rank(a.0);
    let rb = trust_rank(b.0);
    if ra != rb {
        return ra > rb;
    }
    let url_first = match (&a.1, &b.1) {
        (None, Some(_)) => true,
        (Some(x), Some(y)) => text_before(x.as_str(), y.as_str()),
        _ => false,
    };
    if url_first {
        return true;
    }
    if !same_url(&a.1, &b.1) {
        return false;
    }
    let ba = a.2.to_bytes();
    let bb = b.2.to_bytes();
    bytes_before(ba.as_slice(), bb.as_slice())
}

/// No entry is listed before one that comes earlier.
pub open spec fn in_listing_order(v: Seq<IdEntryView>) -> bool {
    forall|a: int, b: int| 0 <= a < b < v.len() ==> !listed_before(#[trigger] v[b], #[trigger] v[a])
}

/// Inserts `e` after every entry that `e` is not listed before.
fn insert_in_order(r: &mut Vec<IdEntry>, e: IdEntry)
    requires
        in_listing_order(entries_view(old(r)@)),
    ensures
        in_listing_order(entries_view(final(r)@)),
        exists|pos: int|
            0 <= pos <= old(r)@.len() && final(r)@ == old(r)@.insert(pos, e),
{
    let ghost old_s = r@;
    let ghost old_v = entries_view(r@);
    let ghost x = entry_view(e);
    let mut pos: usize = 0;
    loop
        invariant
            pos <= r.len(),
            old_s == r@,
            old_v == entries_view(r@),
            x == entry_view(e),
            forall|k: int| 0 <= k < pos ==> !listed_before(x, #[trigger] old_v[k]),
        ensures
            pos <= r.len(),
            old_s == r@,
            forall|k: int| 0 <= k < pos ==> !listed_before(x, #[trigger] old_v[k]),
            pos < r.len() ==> listed_before(x, old_v[pos as int]),
        decreases r.len() - pos,
    {
        if pos == r.len() {
            break;
        }
        assert(old_v[pos as int] == entry_view(r@[pos as int]));
        if is_listed_before(&e, &r[pos]) {
            break;
        }
        pos = pos + 1;
    }
    r.insert(pos, e);
    proof {
        old_v.insert_ensures(pos as int, x);
        let nv = entries_view(r@);
        assert(nv =~= old_v.insert(pos as int, x));
        assert forall|a: int, b: int| 0 <= a < b < nv.len() implies !listed_before(
            #[trigger] nv[b],
            #[trigger] nv[a],
        ) by {
            if b < pos {
                assert(nv[a] == old_v[a] && nv[b] == old_v[b]);
            } else if b == pos {
                assert(nv[a] == old_v[a]);
                lemma_listed_before_strict(x, old_v[a], x);
            } else if a < pos {
                assert(nv[a] == old_v[a] && nv[b] == old_v[b - 1]);
            } else if a == pos {
                assert(nv[b] == old_v[b - 1]);
                assert(listed_before(x, old_v[pos as int]));
                if b - 1 == pos {
                    lemma_listed_before_strict(x, old_v[pos as int], x);
                } else {
                    lemma_listed_before_strict(old_v[b - 1], x, old_v[pos as int]);
                }
            } else {
                assert(nv[a] == old_v[a - 1] && nv[b] == old_v[b - 1]);
            }
        }
    }
}

/// The known ids in the order `cargo crev id query all` lists them (see
/// [`listed_before`]); entries that neither comes before keep their order.
pub fn sort_ids_for_listing(entries: Vec<IdEntry>) -> (r: Vec<IdEntry>)
    ensures
        in_listing_order(entries_view(r@)),
        r@.len() == entries@.len(),
        entries_within(r@, entries@),
        entries_within(entries@, r@),
        r@.to_multiset() == entries@.to_multiset(),
{
    let ghost src = entries@;
    let mut r: Vec<IdEntry> = Vec::new();
    assert(src.take(0) =~= Seq::<IdEntry>::empty());
    for e in it: entries.into_iter()
        invariant
            src == it.seq(),
            in_listing_order(entries_view(r@)),
            r@.len() == it.index(),
            entries_within(r@, src.take(it.index() as int)),
            entries_within(src.take(it.index() as int), r@),
            r@.to_multiset() == src.take(it.index() as int).to_multiset(),
    {
        let ghost i = it.index() as int;
        let ghost before = r@;
        assert(src[i] == e);
        insert_in_order(&mut r, e);
        proof {
            let pos = choose|pos: int| 0 <= pos <= before.len() && r@ == before.insert(pos, e);
            lemma_insert_entry(before, src, i, pos);
            before.insert_ensures(pos, e);
            lemma_insert_keeps_multiset(before, pos, e, src, i);
        }
    }
    assert(src.take(src.len() as int) == src);
    r
}

/// Putting `e` in at `pos` adds one `e` to what the sequence holds.
proof fn lemma_insert_keeps_multiset(s: Seq<IdEntry>, pos: int, e: IdEntry, src: Seq<IdEntry>, i: int)
    requires
        0 <= pos <= s.len(),
        0 <= i < src.len(),
        src[i] == e,
        s.to_multiset() == src.take(i).to_multiset(),
    ensures
        s.insert(pos, e).to_multiset() == src.take(i + 1).to_multiset(),
{
    assert(src.take(i + 1) =~= src.take(i).push(e));
    to_multiset_build(src.take(i), e);
    let t = s.insert(pos, e);
    s.insert_ensures(pos, e);
    assert(t.remove(pos) =~= s);
    to_multiset_remove(t, pos);
    t.to_multiset_ensures();
    assert(t.contains(e)) by {
        assert(t[pos] == e);
    }
    assert(t.to_multiset() =~= s.to_multiset().insert(e));
}

/// The line shown for an id: the id, its trust (padded to 6), where its
/// url comes from, and the url.
pub open spec fn id_line_text(id: Seq<u8>, trust: TrustLevel, url: UrlOfId) -> Seq<char> {
    base64_url_nopad(id) + " "@ + left_aligned(trust_level_text(trust), 6) + " "@ + url_status(url).0
        + " "@ + url_status(url).1 + "\n"@
}

/// The lines shown for ids, one after the other, each with its effective
/// trust and where its url comes from.
pub open spec fn id_lines(ids: Seq<(Id, TrustLevel, UrlOfId)>) -> Seq<char>
    decreases ids.len(),
{
    if ids.len() == 0 {
        Seq::empty()
    } else {
        id_lines(ids.drop_last()) + id_line_text(ids.last().0@, ids.last().1, ids.last().2)
    }
}

/// The ids can be displayed.
pub open spec fn ids_displayable(ids: Seq<(Id, TrustLevel, UrlOfId)>) -> bool {
    forall|i: int| 0 <= i < ids.len() ==> 4 * ((#[trigger] ids[i]).0@.len() / 3) + 3 <= usize::MAX
}

/// The lines `cargo crev id query` prints for ids (see [`id_lines`]).
pub fn print_ids(ids: &Vec<(Id, TrustLevel, UrlOfId)>) -> (s: String)
    requires
        ids_displayable(ids@),
    ensures
        s@ == id_lines(ids@),
{
    proof {
        reveal_strlit(" ");
        reveal_strlit("\n");
        reveal_strlit("");
        reveal_strlit("==");
        reveal_strlit("~=");
        reveal_strlit("??");
    }
    let mut s = String::new();
    let mut i: usize = 0;
    assert(ids@.take(0) =~= Seq::<(Id, TrustLevel, UrlOfId)>::empty());
    while i < ids.len()
        invariant
            i <= ids.len(),
            ids_displayable(ids@),
            s@ == id_lines(ids@.take(i as int)),
        decreases ids.len() - i,
    {
        let (id, trust, url) = &ids[i];
        assert(ids@.take(i + 1).drop_last() == ids@.take(i as int));
        assert(ids@.take(i + 1).last() == ids@[i as int]);
        let ghost before = s@;
        let text = id.to_string();
        push_str(&mut s, text.as_str());
        push_str(&mut s, " ");
        let t = trust.as_str();
        push_str(&mut s, t);
        let n = crate::text::chars_of(t).len();
        let mut k: usize = n;
        while k < 6
            invariant
                n <= k <= 6 || (n > 6 && k == n),
                s@ == before + text@ + " "@ + t@ + crate::cli::spaces((k - n) as nat),
            decreases 6 - k,
        {
            s.push(' ');
            k = k + 1;
            assert(s@ =~= before + text@ + " "@ + t@ + crate::cli::spaces((k - n) as nat));
        }
        assert(t@ + crate::cli::spaces((k - n) as nat) =~= left_aligned(trust_level_text(*trust), 6));
        let (status, u) = url_to_status_str(url);
        assert(status@ == url_status(*url).0 && u@ == url_status(*url).1);
        push_str(&mut s, " ");
        push_str(&mut s, status);
        push_str(&mut s, " ");
        push_str(&mut s, u);
        push_str(&mut s, "\n");
        assert(s@ =~= before + id_line_text(id@, *trust, *url));
        i = i + 1;
    }
    assert(ids@.take(ids.len() as int) == ids@);
    s
}

} // verus!
