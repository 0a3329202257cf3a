use vstd::prelude::*;
use crate::common::{base64_encode, base64_url_nopad};

verus! {

/// A 32-byte digest (blake2b256).
#[derive(Debug, Clone, PartialEq, Eq)]
pub struct Digest(pub(crate) [u8; 32]);

impl View for Digest {
    type V = Seq<u8>;

    closed spec fn view(&self) -> Seq<u8> {
        self.0@
    }
}

impl From<[u8; 32]> for Digest {
    fn from(arr: [u8; 32]) -> (d: Self)
        ensures
            d@ == arr@,
    {
        Digest(arr)
    }
}

impl vstd::std_specs::convert::FromSpecImpl<[u8; 32]> for Digest {
    open spec fn obeys_from_spec() -> bool {
        true
    }

    closed spec fn from_spec(arr: [u8; 32]) -> Self {
        Digest(arr)
    }
}

fn array_from_slice(bytes: &[u8]) -> (out: [u8; 32])
    requires
        bytes@.len() == 32,
    ensures
        out@ == bytes@,
{
    let mut out = [0u8; 32];
    let mut i: usize = 0;
    while i < 32
        invariant
            i <= 32,
            bytes@.len() == 32,
            out@.len() == 32,
            forall|k: int| 0 <= k < i ==> out@[k] == bytes@[k],
        decreases 32 - i,
    {
        out[i] = bytes[i];
        i = i + 1;
    }
    assert(out@ == bytes@);
    out
}

impl Digest {
    /// The 32 bytes of the digest.
    pub fn as_slice(&self) -> (s: &[u8])
        ensures
            s@ == self@,
    {
        self.0.as_slice()
    }

    /// The digest made of `vec`, when it holds exactly 32 bytes.
    pub fn from_vec(vec: Vec<u8>) -> (r: Option<Self>)
        ensures
            r is Some <==> vec@.len() == 32,
            r matches Some(d) ==> d@ == vec@,
    {
        if vec.len() == 32 {
            Some(Digest(array_from_slice(vec.as_slice())))
        } else {
            None
        }
    }

    /// The digest made of `bytes`, when there are exactly 32 of them.
    pub fn from_bytes(bytes: &[u8]) -> (r: Option<Self>)
        ensures
            r is Some <==> bytes@.len() == 32,
            r matches Some(d) ==> d@ == bytes@,
    {
        if bytes.len() == 32 {
            Some(Digest(array_from_slice(bytes)))
        } else {
            None
        }
    }

    /// The 32 bytes of the digest, as a vector.
    pub fn into_vec(self) -> (v: Vec<u8>)
        ensures
            v@ == self@,
    {
        vstd::slice::slice_to_vec(self.as_slice())
    }

    /// The digest in base64 (URL-safe alphabet, no padding), as it is displayed.
    pub fn to_string(&self) -> (s: String)
        ensures
            s@ == base64_url_nopad(self@),
    {
        base64_encode(self.as_slice())
    }
}

} // verus!
