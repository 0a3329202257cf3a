//! Identities: the crev id (an Ed25519 public key), the public id that pairs
//! it with the url of a proof repository, and the unlocked id that holds the
//! secret key too.
use vstd::prelude::*;
use crate::common::{base64_decode, base64_encode, base64_url_nopad, base64_url_nopad_decoded};
use crate::crypto::{
    ed25519_accepts, ed25519_public_key_valid, ed25519_public_of, ed25519_signature_of,
    ed25519_signature_parses, generate_secret_key, public_key_of_secret, public_key_valid,
    sign_with_secret, signature_parses, verify_signature_bytes,
};
use crate::url::Url;
use crate::text::{decimal, push_decimal};

verus! {

/// The kind of an id. Only the native crev id exists so far.
#[derive(Clone, Debug, Copy, PartialEq, Eq, Structural)]
pub enum IdType {
    Crev,
}

impl IdType {
    /// The name of the id type: `crev`.
    pub fn as_str(&self) -> (s: &'static str)
        ensures
            s@ == "crev"@,
    {
        match self {
            IdType::Crev => "crev",
        }
    }
}

/// An id supported by the `crev` system: for now a crev id, the bytes of an
/// Ed25519 public key.
#[derive(Debug, Hash, PartialEq, Eq, PartialOrd, Ord)]
pub enum Id {
    Crev { id: Vec<u8> },
}

/// What can go wrong with ids, keys and signatures.
#[derive(Debug, Clone, PartialEq, Eq)]
pub enum IdError {
    /// A crev id must be 32 bytes long; this many were given.
    WrongIdLength(usize),
    /// The text is not valid base64 (URL-safe alphabet, no padding).
    Base64,
    /// The bytes are not an Ed25519 public key.
    InvalidPublicKey,
    /// The bytes are not an Ed25519 signature.
    InvalidSignature,
    /// The signature does not match the content.
    SignatureMismatch,
    /// A secret key must be 32 bytes long; this many were given.
    WrongSecretKeyLength(usize),
}

/// The bytes of a text, as the base64 decoder reads them.
pub open spec fn text_bytes(s: Seq<char>) -> Seq<u8> {
    vstd::utf8::encode_utf8(s)
}

/// What `Id::crevid_from_str` makes of a text.
pub open spec fn crevid_parse(s: Seq<char>) -> Result<Seq<u8>, IdError> {
    match base64_url_nopad_decoded(text_bytes(s)) {
        None => Err(IdError::Base64),
        Some(b) => if b.len() == 32 {
            Ok(b)
        } else {
            Err(IdError::WrongIdLength(b.len() as usize))
        },
    }
}

/// The outcome of checking `sig_text` as a signature of `content` by `id`.
pub open spec fn signature_check(id: Seq<u8>, content: Seq<u8>, sig_text: Seq<char>) -> Result<
    (),
    IdError,
> {
    if !ed25519_public_key_valid(id) {
        Err(IdError::InvalidPublicKey)
    } else {
        match base64_url_nopad_decoded(text_bytes(sig_text)) {
            None => Err(IdError::Base64),
            Some(sig) => if !ed25519_signature_parses(sig) {
                Err(IdError::InvalidSignature)
            } else if !ed25519_accepts(id, content, sig) {
                Err(IdError::SignatureMismatch)
            } else {
                Ok(())
            },
        }
    }
}

/// The message of an id error.
pub open spec fn id_error_text(e: IdError) -> Seq<char> {
    match e {
        IdError::WrongIdLength(n) => "wrong length of crev id, expected 32 bytes, got "@ + decimal(
            n as nat,
        ),
        IdError::Base64 => "invalid base64"@,
        IdError::InvalidPublicKey => "invalid public key"@,
        IdError::InvalidSignature => "invalid signature"@,
        IdError::SignatureMismatch => "signature does not match"@,
        IdError::WrongSecretKeyLength(n) => "wrong length of secret key, expected 32 bytes, got "@
            + decimal(n as nat),
    }
}

impl IdError {
    /// The message of the error (see [`id_error_text`]).
    pub fn message(&self) -> (s: String)
        ensures
            s@ == id_error_text(*self),
    {
        match self {
            IdError::WrongIdLength(n) => {
                let mut s = String::from_str("wrong length of crev id, expected 32 bytes, got ");
                push_decimal(&mut s, *n as u64);
                s
            },
            IdError::Base64 => String::from_str("invalid base64"),
            IdError::InvalidPublicKey => String::from_str("invalid public key"),
            IdError::InvalidSignature => String::from_str("invalid signature"),
            IdError::SignatureMismatch => String::from_str("signature does not match"),
            IdError::WrongSecretKeyLength(n) => {
                let mut s = String::from_str("wrong length of secret key, expected 32 bytes, got ");
                push_decimal(&mut s, *n as u64);
                s
            },
        }
    }
}

impl View for Id {
    type V = Seq<u8>;

    open spec fn view(&self) -> Seq<u8> {
        match self {
            Id::Crev { id } => id@,
        }
    }
}

impl Clone for Id {
    fn clone(&self) -> (r: Self)
        ensures
            r@ == self@,
    {
        match self {
            Id::Crev { id } => {
                let c = id.clone();
                assert(c@ =~= id@);
                Id::Crev { id: c }
            },
        }
    }
}

impl Id {
    /// A crev id from the bytes of a public key; they must be 32.
    pub fn new_crev(bytes: Vec<u8>) -> (r: Result<Id, IdError>)
        ensures
            r matches Ok(id) ==> id@ == bytes@ && bytes@.len() == 32,
            r matches Err(e) ==> bytes@.len() != 32 && e == IdError::WrongIdLength(bytes@.len() as usize),
    {
        if bytes.len() != 32 {
            return Err(IdError::WrongIdLength(bytes.len()));
        }
        Ok(Id::Crev { id: bytes })
    }

    /// A crev id from its base64 text.
    pub fn crevid_from_str(s: &str) -> (r: Result<Id, IdError>)
        requires
            s@.len() * 4 + 7 <= usize::MAX,
        ensures
            r matches Ok(id) ==> crevid_parse(s@) == Ok::<Seq<u8>, IdError>(id@),
            r matches Err(e) ==> crevid_parse(s@) == Err::<Seq<u8>, IdError>(e),
    {
        let bytes = s.as_bytes();
        proof {
            lemma_utf8_len_bound(s@);
        }
        match base64_decode(bytes) {
            None => Err(IdError::Base64),
            Some(v) => Id::new_crev(v),
        }
    }

    /// The bytes of the id.
    pub fn to_bytes(&self) -> (v: Vec<u8>)
        ensures
            v@ == self@,
    {
        match self {
            Id::Crev { id } => id.clone(),
        }
    }

    /// The id as it is displayed: base64 of its bytes. The text of a
    /// 32-byte id reads back as that id.
    pub fn to_string(&self) -> (s: String)
        requires
            4 * (self@.len() / 3) + 3 <= usize::MAX,
        ensures
            s@ == base64_url_nopad(self@),
            self@.len() == 32 ==> crevid_parse(s@) == Ok::<Seq<u8>, IdError>(self@),
    {
        match self {
            Id::Crev { id } => base64_encode(id.as_slice()),
        }
    }

    /// Checks that `sig_str` (base64) is a signature of `content` by this id.
    pub fn verify_signature(&self, content: &[u8], sig_str: &str) -> (r: Result<(), IdError>)
        requires
            sig_str@.len() * 4 + 7 <= usize::MAX,
        ensures
            r == signature_check(self@, content@, sig_str@),
    {
        match self {
            Id::Crev { id } => {
                if !public_key_valid(id.as_slice()) {
                    return Err(IdError::InvalidPublicKey);
                }
                proof {
                    lemma_utf8_len_bound(sig_str@);
                }
                let sig_bytes = match base64_decode(sig_str.as_bytes()) {
                    None => return Err(IdError::Base64),
                    Some(b) => b,
                };
                if !signature_parses(sig_bytes.as_slice()) {
                    return Err(IdError::InvalidSignature);
                }
                if !verify_signature_bytes(id.as_slice(), content, sig_bytes.as_slice()) {
                    return Err(IdError::SignatureMismatch);
                }
                Ok(())
            },
        }
    }
}

/// Are the two ids the same (the same bytes)?
pub fn ids_equal(a: &Id, b: &Id) -> (r: bool)
    ensures
        r == (a@ == b@),
{
    match (a, b) {
        (Id::Crev { id: x }, Id::Crev { id: y }) => bytes_match(x.as_slice(), y.as_slice()),
    }
}

/// Are the two byte strings equal?
pub fn bytes_match(a: &[u8], b: &[u8]) -> (r: bool)
    ensures
        r == (a@ == b@),
{
    if a.len() != b.len() {
        return false;
    }
    let mut i: usize = 0;
    while i < a.len()
        invariant
            i <= a.len(),
            a.len() == b.len(),
            a@.take(i as int) == b@.take(i as int),
        decreases a.len() - i,
    {
        if a[i] != b[i] {
            assert(a@[i as int] != b@[i as int]);
            return false;
        }
        assert(a@.take(i + 1) == a@.take(i as int).push(a@[i as int]));
        assert(b@.take(i + 1) == b@.take(i as int).push(b@[i as int]));
        i = i + 1;
    }
    assert(a@.take(a.len() as int) == a@);
    assert(b@.take(b.len() as int) == b@);
    true
}

/// A character takes at most four bytes in UTF-8.
pub proof fn lemma_utf8_len_bound(s: Seq<char>)
    ensures
        vstd::utf8::encode_utf8(s).len() <= 4 * s.len(),
    decreases s.len(),
{
    if s.len() > 0 {
        lemma_utf8_len_bound(s.drop_first());
    }
}

/// A unique id accompanied by publicly identifying data: the url of its
/// proof repository, where there is one.
#[derive(Debug, PartialEq, Eq, Hash)]
pub struct PublicId {
    pub id: Id,
    pub url: Option<Url>,
}

/// The bytes of an id and its url, if any.
pub type PublicIdView = (Seq<u8>, Option<(Seq<char>, Seq<char>)>);

impl View for PublicId {
    type V = PublicIdView;

    open spec fn view(&self) -> PublicIdView {
        (
            self.id@,
            match self.url {
                Some(u) => Some(u@),
                None => None,
            },
        )
    }
}

impl Clone for PublicId {
    fn clone(&self) -> (r: Self)
        ensures
            r@ == self@,
    {
        let url = match &self.url {
            Some(u) => Some(u.clone()),
            None => None,
        };
        PublicId { id: self.id.clone(), url }
    }
}

impl PublicId {
    pub fn new(id: Id, url: Url) -> (r: Self)
        ensures
            r == (PublicId { id, url: Some(url) }),
    {
        PublicId { id, url: Some(url) }
    }

    /// The same id and the same url (and url type), or both without a url.
    pub fn same_as(&self, other: &PublicId) -> (b: bool)
        ensures
            b == (self@ == other@),
    {
        if !ids_equal(&self.id, &other.id) {
            return false;
        }
        match (&self.url, &other.url) {
            (Some(a), Some(b)) => crate::text::str_eq(a.url.as_str(), b.url.as_str())
                && crate::text::str_eq(a.url_type.as_str(), b.url_type.as_str()),
            (None, None) => true,
            _ => false,
        }
    }

    pub fn new_id_only(id: Id) -> (r: Self)
        ensures
            r == (PublicId { id, url: None }),
    {
        PublicId { id, url: None }
    }

    /// A public id from the bytes of a public key (they must be 32) and a url.
    pub fn new_from_pubkey(v: Vec<u8>, url: Url) -> (r: Result<Self, IdError>)
        ensures
            r matches Ok(p) ==> v@.len() == 32 && p.id@ == v@ && p.url == Some(url),
            r matches Err(e) ==> v@.len() != 32 && e == IdError::WrongIdLength(v@.len() as usize),
    {
        let id = Id::new_crev(v)?;
        Ok(PublicId { id, url: Some(url) })
    }

    /// A public id from the base64 text of a public key and a url.
    pub fn new_crevid_from_base64(s: &str, url: Url) -> (r: Result<Self, IdError>)
        requires
            s@.len() * 4 + 7 <= usize::MAX,
        ensures
            r matches Ok(p) ==> crevid_parse(s@) == Ok::<Seq<u8>, IdError>(p.id@) && p.url == Some(
                url,
            ),
            r matches Err(e) ==> crevid_parse(s@) == Err::<Seq<u8>, IdError>(e),
    {
        let id = Id::crevid_from_str(s)?;
        Ok(PublicId { id, url: Some(url) })
    }

    /// The url of the id's proof repository, or `(no url)`.
    pub fn url_display(&self) -> (s: &str)
        ensures
            s@ == match self.url {
                Some(u) => u.url@,
                None => "(no url)"@,
            },
    {
        match &self.url {
            Some(url) => url.url.as_str(),
            None => "(no url)",
        }
    }
}

/// A `PublicId` with the corresponding secret key.
#[derive(Debug)]
pub struct UnlockedId {
    pub id: PublicId,
    pub secret_key: Vec<u8>,
}

impl UnlockedId {
    /// The id holds a 32-byte secret key, its public id is the public key of
    /// that secret, and it has a url.
    pub open spec fn wf(&self) -> bool {
        &&& self.secret_key@.len() == 32
        &&& self.id.id@ == ed25519_public_of(self.secret_key@)
        &&& ed25519_public_key_valid(self.id.id@)
        &&& self.id.url is Some
    }

    /// An unlocked id from a url and the bytes of a secret key (they must be 32).
    pub fn new(url: Url, sec_key: Vec<u8>) -> (r: Result<Self, IdError>)
        ensures
            r matches Ok(u) ==> u.wf() && u.secret_key@ == sec_key@ && u.id.url == Some(url),
            r matches Err(e) ==> sec_key@.len() != 32 && e == IdError::WrongSecretKeyLength(
                sec_key@.len() as usize,
            ),
    {
        if sec_key.len() != 32 {
            return Err(IdError::WrongSecretKeyLength(sec_key.len()));
        }
        let public = public_key_of_secret(sec_key.as_slice());
        let id = Id::Crev { id: public };
        Ok(UnlockedId { id: PublicId { id, url: Some(url) }, secret_key: sec_key })
    }

    /// The Ed25519 signature of `msg` by this id.
    pub fn sign(&self, msg: &[u8]) -> (r: Vec<u8>)
        requires
            self.wf(),
        ensures
            r@ == ed25519_signature_of(self.secret_key@, msg@),
            r@.len() == 64,
            ed25519_signature_parses(r@),
            ed25519_accepts(self.id.id@, msg@, r@),
    {
        sign_with_secret(self.secret_key.as_slice(), msg)
    }

    /// The type of the id: `crev`.
    pub fn type_as_string(&self) -> (s: String)
        ensures
            s@ == "crev"@,
    {
        String::from_str("crev")
    }

    pub fn as_public_id(&self) -> (p: &PublicId)
        ensures
            *p == self.id,
    {
        &self.id
    }

    /// The url of the id.
    pub fn url(&self) -> (u: &Url)
        requires
            self.id.url is Some,
        ensures
            Some(*u) == self.id.url,
    {
        self.id.url.as_ref().unwrap()
    }

    /// A new id with a fresh random secret key, for a git url.
    pub fn generate_for_git_url(url: &str) -> (r: Self)
        ensures
            r.wf(),
            r.id.url matches Some(u) && u.url@ == url@ && u.url_type@ == "git"@,
    {
        Self::generate(Url::new_git(String::from_str(url)))
    }

    /// A new id with a fresh random secret key.
    pub fn generate(url: Url) -> (r: Self)
        ensures
            r.wf(),
            r.id.url == Some(url),
    {
        let secret_key = generate_secret_key();
        let public = public_key_of_secret(secret_key.as_slice());
        UnlockedId { id: PublicId { id: Id::Crev { id: public }, url: Some(url) }, secret_key }
    }
}

} // verus!
