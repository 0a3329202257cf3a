//! The arguments of `cargo crev trust`: ids, and urls of proof repositories
//! whose owners are to be trusted.
use vstd::prelude::*;
use crate::id::Id;
use crate::text::{starts_with, str_eq};

verus! {

/// The views of strings.
pub open spec fn strings_view(v: Seq<String>) -> Seq<Seq<char>> {
    v.map_values(|s: String| s@)
}

/// Is the argument a url (it starts with `https://`)?
pub open spec fn is_url_arg(s: Seq<char>) -> bool {
    starts_with(s, "https://"@)
}

/// The test for a url argument.
pub open spec fn url_test() -> spec_fn(Seq<char>) -> bool {
    |s: Seq<char>| is_url_arg(s)
}

/// The test for an id argument.
pub open spec fn id_test() -> spec_fn(Seq<char>) -> bool {
    |s: Seq<char>| !is_url_arg(s)
}

/// The arguments that are urls, in order.
pub open spec fn url_args(args: Seq<Seq<char>>) -> Seq<Seq<char>> {
    args.filter(url_test())
}

/// The arguments that are not urls (ids), in order.
pub open spec fn id_args(args: Seq<Seq<char>>) -> Seq<Seq<char>> {
    args.filter(id_test())
}

/// Splits the arguments into urls and ids, each kept in order.
pub fn split_ids_and_urls(args: Vec<String>) -> (r: (Vec<String>, Vec<String>))
    ensures
        strings_view(r.0@) == url_args(strings_view(args@)),
        strings_view(r.1@) == id_args(strings_view(args@)),
{
    let ghost av = strings_view(args@);
    let mut urls: Vec<String> = Vec::new();
    let mut ids: Vec<String> = Vec::new();
    proof {
        reveal_strlit("https://");
    }
    assert(av.take(0) =~= Seq::<Seq<char>>::empty());
    for a in it: args.into_iter()
        invariant
            av == strings_view(it.seq()),
            strings_view(urls@) == url_args(av.take(it.index() as int)),
            strings_view(ids@) == id_args(av.take(it.index() as int)),
    {
        let ghost k = it.index() as int;
        assert(av.take(k + 1) == av.take(k).push(a@));
        proof {
            av.take(k).lemma_filter_push(a@, url_test());
            av.take(k).lemma_filter_push(a@, id_test());
        }
        let v = crate::text::chars_of(a.as_str());
        let p = crate::text::chars_of("https://");
        let ghost old_urls = urls@;
        let ghost old_ids = ids@;
        if crate::text::chars_start_with(v.as_slice(), p.as_slice()) {
            urls.push(a);
            assert(strings_view(urls@) =~= strings_view(old_urls).push(urls@.last()@));
        } else {
            ids.push(a);
            assert(strings_view(ids@) =~= strings_view(old_ids).push(ids@.last()@));
        }
    }
    assert(av.take(av.len() as int) == av);
    (urls, ids)
}

/// An author as values: the bytes of its id and the url its own proofs
/// give, if any.
pub type AuthorView = (Seq<u8>, Option<Seq<char>>);

/// The ids (each once, in the order of first appearance) of the authors
/// whose own url is `url`.
pub open spec fn ids_with_url(authors: Seq<AuthorView>, url: Seq<char>) -> Seq<Seq<u8>>
    decreases authors.len(),
{
    if authors.len() == 0 {
        Seq::empty()
    } else {
        let r = ids_with_url(authors.drop_last(), url);
        let a = authors.last();
        if a.1 == Some(url) && !r.contains(a.0) {
            r.push(a.0)
        } else {
            r
        }
    }
}

/// The ids found for the urls, url after url, and the urls for which none
/// was found: a url no author gives, or one given again.
pub open spec fn ids_for_urls(authors: Seq<AuthorView>, urls: Seq<Seq<char>>) -> (
    Seq<Seq<u8>>,
    Seq<Seq<char>>,
)
    decreases urls.len(),
{
    if urls.len() == 0 {
        (Seq::empty(), Seq::empty())
    } else {
        let (ids, missing) = ids_for_urls(authors, urls.drop_last());
        let u = urls.last();
        let found = ids_with_url(authors, u);
        if urls.drop_last().contains(u) || found.len() == 0 {
            (ids, missing.push(u))
        } else {
            (ids + found, missing)
        }
    }
}

/// The views of authors.
pub open spec fn authors_view(v: Seq<(Id, Option<String>)>) -> Seq<AuthorView> {
    v.map_values(
        |a: (Id, Option<String>)|
            (
                a.0@,
                match a.1 {
                    Some(u) => Some(u@),
                    None => None,
                },
            ),
    )
}

/// The views of ids.
pub open spec fn id_bytes_view(v: Seq<Id>) -> Seq<Seq<u8>> {
    v.map_values(|i: Id| i@)
}

fn contains_id(v: &Vec<Id>, id: &Id) -> (b: bool)
    ensures
        b == id_bytes_view(v@).contains(id@),
{
    let mut i: usize = 0;
    while i < v.len()
        invariant
            i <= v.len(),
            forall|k: int| 0 <= k < i ==> (#[trigger] id_bytes_view(v@)[k]) != id@,
        decreases v.len() - i,
    {
        if crate::id::ids_equal(&v[i], id) {
            assert(id_bytes_view(v@)[i as int] == id@);
            return true;
        }
        i = i + 1;
    }
    false
}

fn contains_str(v: &Vec<String>, upto: usize, s: &String) -> (b: bool)
    requires
        upto <= v@.len(),
    ensures
        b == strings_view(v@.take(upto as int)).contains(s@),
{
    let mut i: usize = 0;
    while i < upto
        invariant
            i <= upto <= v@.len(),
            forall|k: int| 0 <= k < i ==> (#[trigger] strings_view(v@)[k]) != s@,
        decreases upto - i,
    {
        if str_eq(v[i].as_str(), s.as_str()) {
            assert(strings_view(v@.take(upto as int))[i as int] == s@);
            return true;
        }
        i = i + 1;
    }
    assert forall|k: int| 0 <= k < upto implies (#[trigger] strings_view(v@.take(upto as int))[k])
        != s@ by {
        assert(strings_view(v@.take(upto as int))[k] == strings_view(v@)[k]);
    }
    false
}

fn clone_id(id: &Id) -> (r: Id)
    ensures
        r@ == id@,
{
    Id::Crev { id: id.to_bytes() }
}

/// The ids of the authors whose own url is `url` (see [`ids_with_url`]).
fn find_ids_with_url(authors: &Vec<(Id, Option<String>)>, url: &String) -> (r: Vec<Id>)
    ensures
        id_bytes_view(r@) == ids_with_url(authors_view(authors@), url@),
{
    let ghost av = authors_view(authors@);
    let mut r: Vec<Id> = Vec::new();
    let mut i: usize = 0;
    assert(av.take(0) =~= Seq::<AuthorView>::empty());
    while i < authors.len()
        invariant
            i <= authors.len(),
            av == authors_view(authors@),
            id_bytes_view(r@) == ids_with_url(av.take(i as int), url@),
        decreases authors.len() - i,
    {
        assert(av.take(i + 1).drop_last() == av.take(i as int));
        assert(av.take(i + 1).last() == av[i as int]);
        let (id, own_url) = &authors[i];
        let matches = match own_url {
            Some(u) => str_eq(u.as_str(), url.as_str()),
            None => false,
        };
        if matches && !contains_id(&r, id) {
            let ghost old_r = r@;
            r.push(clone_id(id));
            assert(id_bytes_view(r@) =~= id_bytes_view(old_r).push(id@));
        }
        i = i + 1;
    }
    assert(av.take(authors.len() as int) == av);
    r
}

/// The ids to trust for the given urls, and the urls for which none was
/// found (see [`ids_for_urls`]); `authors` are the known authors, each with
/// the url its own proofs give.
pub fn trust_ids_for_urls(authors: &Vec<(Id, Option<String>)>, urls: &Vec<String>) -> (r: (
    Vec<Id>,
    Vec<String>,
))
    ensures
        (id_bytes_view(r.0@), strings_view(r.1@)) == ids_for_urls(
            authors_view(authors@),
            strings_view(urls@),
        ),
{
    let ghost uv = strings_view(urls@);
    let ghost av = authors_view(authors@);
    let mut ids: Vec<Id> = Vec::new();
    let mut missing: Vec<String> = Vec::new();
    let mut i: usize = 0;
    assert(uv.take(0) =~= Seq::<Seq<char>>::empty());
    while i < urls.len()
        invariant
            i <= urls.len(),
            uv == strings_view(urls@),
            av == authors_view(authors@),
            (id_bytes_view(ids@), strings_view(missing@)) == ids_for_urls(av, uv.take(i as int)),
        decreases urls.len() - i,
    {
        let u = &urls[i];
        assert(uv.take(i + 1).drop_last() == uv.take(i as int));
        assert(uv.take(i + 1).last() == u@);
        assert(strings_view(urls@.take(i as int)) == uv.take(i as int));
        let seen = contains_str(urls, i, u);
        let mut found = find_ids_with_url(authors, u);
        if seen || found.len() == 0 {
            let ghost old_m = missing@;
            missing.push(u.clone());
            assert(strings_view(missing@) =~= strings_view(old_m).push(u@));
        } else {
            let ghost old_ids = ids@;
            let ghost added = found@;
            ids.append(&mut found);
            assert(id_bytes_view(ids@) =~= id_bytes_view(old_ids) + id_bytes_view(added));
        }
        i = i + 1;
    }
    assert(uv.take(urls.len() as int) == uv);
    (ids, missing)
}

} // verus!
