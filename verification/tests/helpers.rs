use crev::comment::{random_id_str, write_comment_draft, write_comment_proof};
use crev::common::{base64_decode, base64_encode, blake2b256sum, sanitize_name_for_fs, sanitize_url_for_fs};
use crev::digest::Digest;
use crev::id::{Id, IdError, PublicId};
use crev::proof_id;
use crev::url::{default_url_type, equals_default_url_type, Url};
use crev::util::{
    append_to_path, is_equal_default, is_set_empty, is_vec_empty, try_again_or_cancel,
    yes_no_reply, CancelledError,
};

#[test]
fn sanitize_names() {
    assert_eq!(sanitize_name_for_fs("lazy_static"), "lazy_static-Bda78Hdy9hiPaGTczi9ADA");
    assert_eq!(sanitize_name_for_fs("CON"), "CON--NhvzH8hSGvoA4DSfBFbpg");
    assert_eq!(sanitize_name_for_fs("://baluga.?io"), "___baluga__io-7zPdDFu-AyMMKrFrpmY7BQ");
    let a16 = "a".repeat(16);
    let a2048 = "a".repeat(2048);
    let a2049 = "a".repeat(2049);
    assert_eq!(sanitize_name_for_fs(&a2048), format!("{}-4iupJgrBwxluPQ8DRmrnXg", a16));
    assert_eq!(sanitize_name_for_fs(&a2049), format!("{}-VMRqy6kfWHPoPp1iKIGt1A", a16));
}

#[test]
fn sanitize_urls() {
    assert_eq!(sanitize_url_for_fs("https://crates.io"), "crates_io-yTEHLALL07ZuqIYj8EHFkg");
    let s = sanitize_url_for_fs("  http://example.com/a b ");
    assert!(s.starts_with("example_com_a_b-"));
    assert!(s.chars().all(|c| c.is_ascii_alphanumeric() || c == '-' || c == '_'));
}

#[test]
fn hashing_and_base64() {
    let d = blake2b256sum(b"");
    assert_eq!(d[0], 0x0e);
    assert_eq!(d[31], 0xa8);
    assert_eq!(base64_encode(&blake2b256sum(b"abc")), "vd2BPGNCOXIxce8_7phXm5SWTjuxyz5CcmLIwGjVIxk");
    assert_eq!(base64_encode(b"somefakesignature"), "c29tZWZha2VzaWduYXR1cmU");
    assert_eq!(base64_decode(b"c29tZWZha2VzaWduYXR1cmU"), Some(b"somefakesignature".to_vec()));
    assert_eq!(base64_decode(b"!!"), None);
}

#[test]
fn digests() {
    let d = Digest::from(blake2b256sum(b"abc"));
    assert_eq!(d.to_string(), "vd2BPGNCOXIxce8_7phXm5SWTjuxyz5CcmLIwGjVIxk");
    assert_eq!(d.as_slice().len(), 32);
    assert_eq!(Digest::from_vec(vec![1; 31]), None);
    assert_eq!(Digest::from_bytes(&[7; 32]).unwrap().into_vec(), vec![7; 32]);
}

#[test]
fn urls() {
    let u = Url::new_git("https://Example.com/X".into());
    assert_eq!(u.url_type, "git");
    assert_eq!(u.digest(), Url::new_git("https://example.com/x".into()).digest());
    assert_ne!(u.digest(), Url::new_git("https://example.com/y".into()).digest());
    assert!(equals_default_url_type("git"));
    assert!(!equals_default_url_type("svn"));
    assert_eq!(default_url_type(), "git");
}

#[test]
fn ids_roundtrip() {
    let text = "FYlr8YoYGVvDwHQxqEIs89reKKDy-oWisoO0qXXEfHE";
    let id = Id::crevid_from_str(text).unwrap();
    assert_eq!(id.to_string(), text);
    assert_eq!(id.to_bytes().len(), 32);
    assert_eq!(Id::crevid_from_str("AAAA").err(), Some(IdError::WrongIdLength(3)));
    assert_eq!(Id::crevid_from_str("!").err(), Some(IdError::Base64));
    assert_eq!(IdError::WrongIdLength(3).message(), "wrong length of crev id, expected 32 bytes, got 3");
    let p = PublicId::new_id_only(id.clone());
    assert_eq!(p.url_display(), "(no url)");
    let p = PublicId::new_from_pubkey(id.to_bytes(), Url::new_git("https://x".into())).unwrap();
    assert_eq!(p.url_display(), "https://x");
    assert_eq!(PublicId::new_from_pubkey(vec![1], Url::new_git("u".into())).err(), Some(IdError::WrongIdLength(1)));
    assert!(PublicId::new_crevid_from_base64(text, Url::new_git("u".into())).is_ok());
}

#[test]
fn proof_ids() {
    let mut id = proof_id::Id::new_from_string("abc".into());
    assert_eq!(id.id_type, "crev");
    assert!(id.url.is_none());
    id.set_git_url("https://g".into());
    assert_eq!(id.url.as_ref().unwrap().url, "https://g");
    assert_eq!(id.url.as_ref().unwrap().url_type, "git");
    assert!(proof_id::equals_default_id_type("crev"));
    assert_eq!(proof_id::default_id_type(), "crev");
}

#[test]
fn comments() {
    let mut s = String::new();
    write_comment_proof("", &mut s);
    assert_eq!(s, "");
    write_comment_proof("a\nb", &mut s);
    assert_eq!(s, "comment: |-\n  a\n  b\n");
    let mut d = String::new();
    write_comment_draft("", &mut d);
    assert_eq!(d, "comment: |-\n  \n");
    let mut d = String::new();
    write_comment_draft("x\r\ny\n", &mut d);
    assert_eq!(d, "comment: |-\n  x\n  y\n");
    let r = random_id_str();
    assert_eq!(r.len(), 43);
    assert_ne!(r, random_id_str());
}

#[test]
fn small_helpers() {
    assert_eq!(append_to_path("a/b".into(), ".tmp"), "a/b.tmp");
    assert!(is_equal_default(&0u32));
    assert!(!is_equal_default(&String::from("x")));
    assert!(is_vec_empty::<u8>(&[]));
    assert!(!is_vec_empty(&[1]));
    assert!(is_set_empty::<u8>(&std::collections::HashSet::new()));
    assert_eq!(yes_no_reply("y"), Some(Some(true)));
    assert_eq!(yes_no_reply("N"), Some(Some(false)));
    assert_eq!(yes_no_reply(""), Some(None));
    assert_eq!(yes_no_reply("maybe"), None);
    assert_eq!(try_again_or_cancel(Ok(None)), Ok(()));
    assert_eq!(try_again_or_cancel(Ok(Some(true))), Ok(()));
    assert_eq!(try_again_or_cancel(Ok(Some(false))), Err(CancelledError::ByUser));
    assert_eq!(try_again_or_cancel(Err(())), Err(CancelledError::NoInput));
    assert_eq!(CancelledError::ByUser.message(), "Cancelled by the user");
}

#[test]
fn base64_groups_of_three_bytes() {
    assert_eq!(crev::common::base64_encode(b"foob"), "Zm9vYg");
    assert_eq!(crev::common::base64_encode(b"fo"), "Zm8");
    assert_eq!(crev::common::base64_encode(&[0xfb, 0xff]), "-_8");
    assert_eq!(crev::common::base64_encode(b""), "");
}
