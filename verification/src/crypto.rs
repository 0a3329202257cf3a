//! Ed25519 signing and verification (ed25519-dalek 1.0), and random bytes.
use vstd::prelude::*;
use ed25519_dalek::{Signer, Verifier};
use rand::Rng;

verus! {

/// The public key that belongs to a 32-byte Ed25519 secret key.
pub uninterp spec fn ed25519_public_of(secret: Seq<u8>) -> Seq<u8>;

/// The Ed25519 signature of `msg` by the 32-byte secret key `secret`.
pub uninterp spec fn ed25519_signature_of(secret: Seq<u8>, msg: Seq<u8>) -> Seq<u8>;

/// Does `PublicKey::from_bytes` accept `bytes` (32 bytes that decompress to a curve point)?
pub uninterp spec fn ed25519_public_key_valid(bytes: Seq<u8>) -> bool;

/// Does `Signature::from_bytes` accept `bytes`?
pub uninterp spec fn ed25519_signature_parses(bytes: Seq<u8>) -> bool;

/// Does the public key `public` accept `sig` as a signature of `msg`?
pub uninterp spec fn ed25519_accepts(public: Seq<u8>, msg: Seq<u8>, sig: Seq<u8>) -> bool;

/// Calls `SecretKey::from_bytes` and `PublicKey::from(&SecretKey)`. Claimed: the
/// result is a function of the secret key, 32 bytes long, and a public key that
/// `PublicKey::from_bytes` accepts. `from_bytes` fails only on a length other
/// than 32, which `requires` rules out.
#[verifier::external_body]
pub(crate) fn public_key_of_secret(secret: &[u8]) -> (r: Vec<u8>)
    requires
        secret@.len() == 32,
    ensures
        r@ == ed25519_public_of(secret@),
        r@.len() == 32,
        ed25519_public_key_valid(r@),
{
    let sk = ed25519_dalek::SecretKey::from_bytes(secret).unwrap();
    let pk = ed25519_dalek::PublicKey::from(&sk);
    pk.as_bytes().to_vec()
}

/// Calls `Keypair::sign` on the key pair of `secret`. Claimed: the result is a
/// function of the secret key and the message, 64 bytes long, accepted by
/// `Signature::from_bytes`, and accepted by `verify` of the matching public
/// key for that message (what Ed25519 signing is).
#[verifier::external_body]
pub(crate) fn sign_with_secret(secret: &[u8], msg: &[u8]) -> (r: Vec<u8>)
    requires
        secret@.len() == 32,
    ensures
        r@ == ed25519_signature_of(secret@, msg@),
        r@.len() == 64,
        ed25519_signature_parses(r@),
        ed25519_accepts(ed25519_public_of(secret@), msg@, r@),
{
    let sk = ed25519_dalek::SecretKey::from_bytes(secret).unwrap();
    let pk = ed25519_dalek::PublicKey::from(&sk);
    let keypair = ed25519_dalek::Keypair { secret: sk, public: pk };
    keypair.sign(msg).to_bytes().to_vec()
}

/// Calls `PublicKey::from_bytes`. Claimed: whether it succeeds is a function
/// of the bytes; it never succeeds on a length other than 32.
#[verifier::external_body]
pub(crate) fn public_key_valid(bytes: &[u8]) -> (r: bool)
    ensures
        r == ed25519_public_key_valid(bytes@),
        r ==> bytes@.len() == 32,
{
    ed25519_dalek::PublicKey::from_bytes(bytes).is_ok()
}

/// Calls `Signature::from_bytes`. Claimed: whether it succeeds is a function
/// of the bytes.
#[verifier::external_body]
pub(crate) fn signature_parses(bytes: &[u8]) -> (r: bool)
    ensures
        r == ed25519_signature_parses(bytes@),
{
    ed25519_dalek::Signature::from_bytes(bytes).is_ok()
}

/// Calls `PublicKey::verify` (the `Verifier` trait). Claimed: the outcome is a
/// function of the key, the message and the signature.
#[verifier::external_body]
pub(crate) fn verify_signature_bytes(public: &[u8], msg: &[u8], sig: &[u8]) -> (r: bool)
    requires
        ed25519_public_key_valid(public@),
        ed25519_signature_parses(sig@),
    ensures
        r == ed25519_accepts(public@, msg@, sig@),
{
    let pk = ed25519_dalek::PublicKey::from_bytes(public).unwrap();
    let s = ed25519_dalek::Signature::from_bytes(sig).unwrap();
    pk.verify(msg, &s).is_ok()
}

/// Calls `SecretKey::generate(&mut OsRng)`. Claimed: 32 bytes; the value
/// comes from the operating system's random source, so nothing else is said.
#[verifier::external_body]
pub(crate) fn generate_secret_key() -> (r: Vec<u8>)
    ensures
        r@.len() == 32,
{
    let sk = ed25519_dalek::SecretKey::generate(&mut rand::rngs::OsRng);
    sk.as_bytes().to_vec()
}

/// Calls `rand::thread_rng()` and draws `len` bytes from the `Standard`
/// distribution. Claimed: `len` bytes; their values are random.
#[verifier::external_body]
pub fn random_vec(len: usize) -> (r: Vec<u8>)
    ensures
        r@.len() == len,
{

    rand::thread_rng().sample_iter(&rand::distributions::Standard).take(len).collect()
}

} // verus!
