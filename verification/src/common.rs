//! Helpers shared by all of `crev`: hashing, base64, names safe for the
//! file system, and the answer to a yes/no prompt.
use vstd::prelude::*;
use crate::text::{
    chars_of, chars_start_with, chars_subrange, push_str, starts_with, string_from_chars, trim,
    trim_chars,
};
use blake2::Digest;
use blake2::digest::FixedOutput;

verus! {

/// The BLAKE2b digest with a 32-byte output of `data`.
pub uninterp spec fn blake2b256(data: Seq<u8>) -> Seq<u8>;

/// Calls `blake2::Blake2b<U32>` (`update` then `finalize_fixed`). Claimed: the
/// result is the 32-byte BLAKE2b-256 digest of `bytes`, a function of `bytes`
/// alone; nothing else is said of its value.
#[verifier::external_body]
pub fn blake2b256sum(bytes: &[u8]) -> (r: [u8; 32])
    ensures
        r@ == blake2b256(bytes@),
{
    let mut hasher = blake2::Blake2b::<blake2::digest::consts::U32>::new();
    hasher.update(bytes);
    hasher.finalize_fixed().into()
}

/// The character of the URL-safe base64 alphabet for the six bits `v`:
/// `A-Z`, `a-z`, `0-9`, then `-` and `_`.
pub open spec fn base64_url_digit(v: int) -> char {
    if v < 26 {
        (65 + v) as char
    } else if v < 52 {
        (97 + v - 26) as char
    } else if v < 62 {
        (48 + v - 52) as char
    } else if v == 62 {
        '-'
    } else {
        '_'
    }
}

/// The base64 encoding of `bytes` with the URL-safe alphabet and no padding:
/// each group of three bytes gives four characters of six bits each; a last
/// group of one or two bytes gives two or three, its missing bits zero.
pub closed spec fn base64_url_nopad(bytes: Seq<u8>) -> Seq<char>
    decreases bytes.len(),
{
    let d = |v: int| base64_url_digit(v);
    let b0 = bytes[0] as int;
    let b1 = bytes[1] as int;
    let b2 = bytes[2] as int;
    if bytes.len() == 0 {
        Seq::empty()
    } else if bytes.len() == 1 {
        seq![d(b0 / 4), d((b0 % 4) * 16)]
    } else if bytes.len() == 2 {
        seq![d(b0 / 4), d((b0 % 4) * 16 + b1 / 16), d((b1 % 16) * 4)]
    } else {
        seq![d(b0 / 4), d((b0 % 4) * 16 + b1 / 16), d((b1 % 16) * 4 + b2 / 64), d(b2 % 64)]
            + base64_url_nopad(bytes.skip(3))
    }
}

/// The encoding has `(4 * n + 2) / 3` characters for `n` bytes, all of the
/// URL-safe alphabet.
pub proof fn lemma_base64_url_nopad_shape(bytes: Seq<u8>)
    ensures
        base64_url_nopad(bytes).len() == (4 * bytes.len() + 2) / 3,
        forall|i: int|
            0 <= i < base64_url_nopad(bytes).len() ==> is_base64_url_char(
                #[trigger] base64_url_nopad(bytes)[i],
            ),
    decreases bytes.len(),
{
    assert forall|v: int| 0 <= v < 64 implies is_base64_url_char(#[trigger] base64_url_digit(v)) by {}
    if bytes.len() >= 3 {
        lemma_base64_url_nopad_shape(bytes.skip(3));
        let b0 = bytes[0] as int;
        let b1 = bytes[1] as int;
        let b2 = bytes[2] as int;
        let head = seq![
            base64_url_digit(b0 / 4),
            base64_url_digit((b0 % 4) * 16 + b1 / 16),
            base64_url_digit((b1 % 16) * 4 + b2 / 64),
            base64_url_digit(b2 % 64),
        ];
        let tail = base64_url_nopad(bytes.skip(3));
        assert(base64_url_nopad(bytes) == head + tail);
        assert forall|i: int| 0 <= i < (head + tail).len() implies is_base64_url_char(
            #[trigger] (head + tail)[i],
        ) by {
            if i >= 4 {
                assert((head + tail)[i] == tail[i - 4]);
            }
        }
    }
}

/// The bytes that `base64` decodes from `input` with the URL-safe alphabet
/// and no padding, or `None` where it reports an error.
pub uninterp spec fn base64_url_nopad_decoded(input: Seq<u8>) -> Option<Seq<u8>>;

/// A character of the URL-safe base64 alphabet: `A-Z`, `a-z`, `0-9`, `-`, `_`.
pub open spec fn is_base64_url_char(c: char) -> bool {
    ('A' <= c && c <= 'Z') || ('a' <= c && c <= 'z') || ('0' <= c && c <= '9') || c == '-' || c
        == '_'
}

/// Calls `base64::encode_config(input, base64::URL_SAFE_NO_PAD)` (base64 0.13).
/// Claimed: the result is the encoding [`base64_url_nopad`] states, its characters come
/// from the URL-safe alphabet, it has `(4 * n + 2) / 3` characters for `n`
/// input bytes (`encoded_size` without padding), and `decode_config` with the
/// same configuration gives the input bytes back from it. The crate panics
/// only when that size overflows `usize`, which `requires` rules out.
#[verifier::external_body]
pub fn base64_encode(input: &[u8]) -> (s: String)
    requires
        4 * (input@.len() / 3) + 3 <= usize::MAX,
    ensures
        s@ == base64_url_nopad(input@),
        s@.len() == (4 * input@.len() + 2) / 3,
        forall|i: int| 0 <= i < s@.len() ==> is_base64_url_char(#[trigger] s@[i]),
        base64_url_nopad_decoded(vstd::utf8::encode_utf8(s@)) == Some(input@),
{
    base64::encode_config(input, base64::URL_SAFE_NO_PAD)
}

/// Calls `base64::decode_config(input, base64::URL_SAFE_NO_PAD)` (base64 0.13).
/// Claimed: the result is a function of the input bytes. Which inputs decode,
/// and to what, is left to the name (see `base64_encode` for the text that
/// `encode_config` makes).
#[verifier::external_body]
pub fn base64_decode(input: &[u8]) -> (r: Option<Vec<u8>>)
    requires
        input@.len() + 7 <= usize::MAX,
    ensures
        r matches Some(v) ==> base64_url_nopad_decoded(input@) == Some(v@),
        r is None ==> base64_url_nopad_decoded(input@) is None,
{
    match base64::decode_config(input, base64::URL_SAFE_NO_PAD) {
        Ok(v) => Some(v),
        Err(_) => None,
    }
}

/// The character that a file-system-safe name keeps for `c`: ASCII letters,
/// digits, `-` and `_` stay, anything else becomes `_`.
pub open spec fn fs_safe_char(c: char) -> char {
    if ('a' <= c && c <= 'z') || ('A' <= c && c <= 'Z') || ('0' <= c && c <= '9') || c == '-'
        || c == '_' {
        c
    } else {
        '_'
    }
}

/// A character that may stand in a file-system-safe name.
pub open spec fn is_fs_safe(c: char) -> bool {
    ('a' <= c && c <= 'z') || ('A' <= c && c <= 'Z') || ('0' <= c && c <= '9') || c == '-' || c
        == '_'
}

/// The first `n` characters of `s`, each made safe, then `-` and the base64 of
/// the first 16 bytes of the BLAKE2b-256 digest of `hashed`.
pub open spec fn fs_safe_name(s: Seq<char>, n: int, hashed: Seq<char>) -> Seq<char> {
    let shown = if s.len() <= n {
        s
    } else {
        s.take(n)
    };
    shown.map_values(|c: char| fs_safe_char(c)) + seq!['-'] + base64_url_nopad(
        blake2b256(vstd::utf8::encode_utf8(hashed)).take(16),
    )
}

/// What `sanitize_name_for_fs` makes of `s`.
pub open spec fn sanitized_name(s: Seq<char>) -> Seq<char> {
    fs_safe_name(s, 16, s)
}

/// `s` without the first of the prefixes `http://` and `https://` that it has.
pub open spec fn strip_http_scheme(s: Seq<char>) -> Seq<char> {
    if starts_with(s, "http://"@) {
        s.skip(7)
    } else if starts_with(s, "https://"@) {
        s.skip(8)
    } else {
        s
    }
}

/// What `sanitize_url_for_fs` makes of `url`.
pub open spec fn sanitized_url(url: Seq<char>) -> Seq<char> {
    fs_safe_name(strip_http_scheme(trim(url)), 48, trim(url))
}

fn chars_to_bytes_of(v: &[char]) -> (b: Vec<u8>)
    ensures
        b@ == vstd::utf8::encode_utf8(v@),
{
    let s = string_from_chars(v);
    let bytes = s.as_str().as_bytes();
    vstd::slice::slice_to_vec(bytes)
}

fn fs_safe_name_exec(shown_src: &[char], n: usize, hashed: &[char]) -> (r: String)
    ensures
        r@ == fs_safe_name(shown_src@, n as int, hashed@),
        forall|i: int| 0 <= i < r@.len() ==> is_fs_safe(#[trigger] r@[i]),
{
    let mut out = String::new();
    let mut i: usize = 0;
    let lim = if shown_src.len() <= n {
        shown_src.len()
    } else {
        n
    };
    let ghost shown = if shown_src@.len() <= n {
        shown_src@
    } else {
        shown_src@.take(n as int)
    };
    assert(shown.len() == lim);
    while i < lim
        invariant
            i <= lim <= shown_src.len(),
            shown.len() == lim,
            forall|k: int| 0 <= k < lim ==> shown[k] == shown_src@[k],
            out@ == shown.take(i as int).map_values(|c: char| fs_safe_char(c)),
        decreases lim - i,
    {
        let c = shown_src[i];
        let kept = if ('a' <= c && c <= 'z') || ('A' <= c && c <= 'Z') || ('0' <= c && c <= '9')
            || c == '-' || c == '_' {
            c
        } else {
            '_'
        };
        out.push(kept);
        i = i + 1;
        assert(out@ =~= shown.take(i as int).map_values(|c: char| fs_safe_char(c)));
    }
    assert(shown.take(lim as int) == shown);
    out.push('-');
    let bytes = chars_to_bytes_of(hashed);
    let digest = blake2b256sum(bytes.as_slice());
    let first16 = slice_prefix(&digest, 16);
    let enc = base64_encode(first16.as_slice());
    let ghost pre = out@;
    assert forall|i: int| 0 <= i < pre.len() implies is_fs_safe(#[trigger] pre[i]) by {
        if i < lim {
            assert(pre[i] == fs_safe_char(shown[i]));
        }
    }
    push_str(&mut out, enc.as_str());
    assert forall|i: int| 0 <= i < out@.len() implies is_fs_safe(#[trigger] out@[i]) by {
        if i >= pre.len() {
            assert(out@[i] == enc@[i - pre.len()]);
        } else {
            assert(out@[i] == pre[i]);
        }
    }
    out
}

fn slice_prefix(a: &[u8; 32], n: usize) -> (r: Vec<u8>)
    requires
        n <= 32,
    ensures
        r@ == a@.take(n as int),
{
    let mut r: Vec<u8> = Vec::new();
    let mut i: usize = 0;
    while i < n
        invariant
            i <= n <= 32,
            a@.len() == 32,
            r@ == a@.take(i as int),
        decreases n - i,
    {
        r.push(a[i]);
        i = i + 1;
        assert(r@ == a@.take(i as int));
    }
    r
}

/// Takes a name and converts it to something safe for use in paths: its first
/// 16 characters with everything but ASCII letters, digits, `-` and `_`
/// replaced by `_`, then `-` and a hash of the whole name.
pub fn sanitize_name_for_fs(s: &str) -> (r: String)
    ensures
        r@ == sanitized_name(s@),
        forall|i: int| 0 <= i < r@.len() ==> is_fs_safe(#[trigger] r@[i]),
{
    let v = chars_of(s);
    fs_safe_name_exec(v.as_slice(), 16, v.as_slice())
}

/// Takes an url and converts it to something safe for use in paths: the
/// trimmed url without `http://` or `https://`, its first 48 characters made
/// safe as in [`sanitize_name_for_fs`], then `-` and a hash of the trimmed url.
pub fn sanitize_url_for_fs(url: &str) -> (r: String)
    ensures
        r@ == sanitized_url(url@),
        forall|i: int| 0 <= i < r@.len() ==> is_fs_safe(#[trigger] r@[i]),
{
    let v = chars_of(url);
    let trimmed = trim_chars(v.as_slice());
    let http = chars_of("http://");
    let https = chars_of("https://");
    proof {
        reveal_strlit("http://");
        reveal_strlit("https://");
    }
    let stripped = if chars_start_with(trimmed.as_slice(), http.as_slice()) {
        chars_subrange(trimmed.as_slice(), 7, trimmed.len())
    } else if chars_start_with(trimmed.as_slice(), https.as_slice()) {
        chars_subrange(trimmed.as_slice(), 8, trimmed.len())
    } else {
        chars_subrange(trimmed.as_slice(), 0, trimmed.len())
    };
    assert(stripped@ == strip_http_scheme(trimmed@));
    fs_safe_name_exec(stripped.as_slice(), 48, trimmed.as_slice())
}

} // verus!
