use vstd::prelude::*;
use crate::common::{blake2b256, blake2b256sum};
use crate::digest::Digest;
use crate::text::{ascii_lowercase, chars_of, chars_to_ascii_lowercase, str_eq, string_from_chars};

verus! {

/// The url of a proof repository, with its type (`git` by default).
#[derive(Debug, PartialEq, Eq, Hash)]
pub struct Url {
    pub url: String,
    pub url_type: String,
}

/// The default url type: `git`.
pub open spec fn default_url_type_text() -> Seq<char> {
    "git"@
}

/// The digest that identifies a url: BLAKE2b-256 of its ASCII lower case.
pub open spec fn url_digest(url: Seq<char>) -> Seq<u8> {
    blake2b256(vstd::utf8::encode_utf8(ascii_lowercase(url)))
}

impl View for Url {
    type V = (Seq<char>, Seq<char>);

    /// The url and its type.
    open spec fn view(&self) -> (Seq<char>, Seq<char>) {
        (self.url@, self.url_type@)
    }
}

impl Clone for Url {
    fn clone(&self) -> (r: Self)
        ensures
            r == *self,
            r@ == self@,
    {
        Url { url: self.url.clone(), url_type: self.url_type.clone() }
    }
}

impl Url {
    /// A git url.
    pub fn new_git(url: String) -> (r: Self)
        ensures
            r.url@ == url@,
            r.url_type@ == default_url_type_text(),
    {
        Url { url, url_type: default_url_type() }
    }

    /// The digest of the url, case-insensitive in ASCII letters.
    pub fn digest(&self) -> (d: Digest)
        ensures
            d@ == url_digest(self.url@),
    {
        let v = chars_of(self.url.as_str());
        let lower = chars_to_ascii_lowercase(v.as_slice());
        let s = string_from_chars(lower.as_slice());
        let bytes = s.as_str().as_bytes();
        Digest::from(blake2b256sum(bytes))
    }
}

/// Is `s` the default url type (`git`)?
pub fn equals_default_url_type(s: &str) -> (r: bool)
    ensures
        r == (s@ == default_url_type_text()),
{
    str_eq(s, "git")
}

/// The default url type: `git`.
pub fn default_url_type() -> (s: String)
    ensures
        s@ == default_url_type_text(),
{
    String::from_str("git")
}

} // verus!
