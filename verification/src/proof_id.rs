//! The id of an author as it is written in proofs: its text, its type and its
//! url.
use vstd::prelude::*;
use crate::text::str_eq;
use crate::url::{default_url_type, default_url_type_text, Url};

verus! {

/// An author's id as text, with its type (`crev` by default) and url.
#[derive(Clone, Debug)]
pub struct Id {
    pub id: String,
    pub id_type: String,
    pub url: Option<Url>,
}

/// The default id type: `crev`.
pub open spec fn default_id_type_text() -> Seq<char> {
    "crev"@
}

impl Id {
    /// An id of the default type, without a url.
    pub fn new_from_string(s: String) -> (r: Self)
        ensures
            r.id == s,
            r.id_type@ == default_id_type_text(),
            r.url is None,
    {
        Id { id: s, id_type: default_id_type(), url: None }
    }

    /// Sets the url, of the default url type.
    pub fn set_git_url(&mut self, url: String)
        ensures
            final(self).id == old(self).id,
            final(self).id_type == old(self).id_type,
            final(self).url matches Some(u) && u.url == url && u.url_type@ == default_url_type_text(),
    {
        self.url = Some(Url { url, url_type: default_url_type() });
    }
}

/// Is `s` the default id type?
pub fn equals_default_id_type(s: &str) -> (r: bool)
    ensures
        r == (s@ == default_id_type_text()),
{
    str_eq(s, "crev")
}

/// The default id type.
pub fn default_id_type() -> (s: String)
    ensures
        s@ == default_id_type_text(),
{
    String::from_str("crev")
}

} // verus!
