use crev::code_review::{CodeBuilder, CodeDraft, File};
use crev::comment::write_comment_proof;
use crev::error::Error;
use crev::id::{IdError, UnlockedId};
use crev::package::{default_digest_type, default_revision_type, PackageInfo, PackageVersionId};
use crev::proofs::{ensure_frames_to_single_proof, placeholder_signature, Proof};
use crev::url::Url;
use crev::version::Version;

fn package_info(source: &str) -> PackageInfo {
    PackageInfo {
        id: PackageVersionId::new(source.to_owned(), "name".into(), Version::parse("1.0.0").unwrap()),
        digest: vec![0, 1, 2, 3],
        digest_type: default_digest_type(),
        revision: String::new(),
        revision_type: default_revision_type(),
    }
}

fn generate_id_and_proof() -> (UnlockedId, Proof) {
    let id = UnlockedId::generate(Url::new_git("https://mypage.com/trust.git".into()));
    let mut b = CodeBuilder::default();
    b.from(id.id.clone())
        .package(package_info("SOURCE_ID"))
        .comment("comment".into())
        .files(vec![
            File { path: "foo.x".into(), digest: vec![1, 2, 3, 4], digest_type: "sha256".into() },
            File { path: "foo.x".into(), digest: vec![1, 2, 3, 4], digest_type: "sha256".into() },
        ]);
    let review = b.build().unwrap();
    let body = format!(
        "kind: code review\nversion: -1\npackage:\n  name: {}\nfiles: {}\n",
        review.package.id.id.name,
        review.files.len()
    );
    let proof = Proof::sign_body(body, review.common.clone(), &id);
    (id, proof)
}

#[test]
fn sign_proof_review() {
    let (_id, proof) = generate_id_and_proof();
    proof.verify().unwrap();
    println!("{}", proof.to_text());
}

#[test]
fn verify_works() {
    let (_id, proof) = generate_id_and_proof();
    let proof = Proof::from_parts(
        proof.body().to_owned() + "\n",
        proof.signature().to_owned(),
        proof.common().clone(),
    )
    .unwrap();
    assert!(proof.verify().is_err());
    assert_eq!(proof.verify().err(), Some(Error::Id(IdError::SignatureMismatch)));
}

#[test]
fn signature_of_another_id_is_rejected() {
    let (_id, proof) = generate_id_and_proof();
    let other = UnlockedId::generate_for_git_url("https://b");
    let mut common = proof.common().clone();
    common.from = other.id.clone();
    let p = Proof::from_parts(proof.body().to_owned(), proof.signature().to_owned(), common).unwrap();
    assert_eq!(p.verify().err(), Some(Error::Id(IdError::SignatureMismatch)));
}

#[test]
fn signed_text_reads_back() {
    let (_id, proof) = generate_id_and_proof();
    let text = proof.to_text();
    let parts = crev::framing::parse_text(&text).unwrap();
    assert_eq!(parts.len(), 1);
    assert_eq!(parts[0].body, proof.body());
    let back = Proof::from_parts(parts[0].body.clone(), parts[0].signature.clone(), proof.common().clone()).unwrap();
    assert_eq!(back.signature(), proof.signature());
    assert_eq!(back.digest(), proof.digest());
    back.verify().unwrap();
}

#[test]
fn ensure_serializes_to_valid_proof_works() {
    let body_with = |comment: &str| {
        let mut body = String::from(
            "kind: package review\nversion: -1\npackage:\n  source: source\n  name: name\n  version: 1.0.0\n",
        );
        write_comment_proof(comment, &mut body);
        body
    };
    let sig = placeholder_signature();
    assert!(ensure_frames_to_single_proof(&body_with("a"), &sig).is_ok());
    let long = "a".repeat(32_000);
    assert!(ensure_frames_to_single_proof(&body_with(&long), &sig).is_err());
    assert_eq!(
        ensure_frames_to_single_proof(&body_with(&long), &sig).err(),
        Some(Error::ProofBodyTooLong)
    );
}

#[test]
fn placeholder_signature_text() {
    assert_eq!(placeholder_signature(), "c29tZWZha2VzaWduYXR1cmU");
}

#[test]
fn body_with_frame_lines_makes_more_proofs() {
    let sig = placeholder_signature();
    let body = "a: 1\n----- SIGN CREV PROOF -----\nx\n----- END CREV PROOF -----\n----- BEGIN CREV PROOF -----\nb: 2\n";
    assert_eq!(
        ensure_frames_to_single_proof(body, &sig).err(),
        Some(Error::SerializedTooManyProofs(2))
    );
}

#[test]
fn unlocked_id_from_secret_key() {
    let id = UnlockedId::generate_for_git_url("https://a");
    let again = UnlockedId::new(id.url().clone(), id.secret_key.clone()).unwrap();
    assert_eq!(again.id.id, id.id.id);
    assert_eq!(
        UnlockedId::new(id.url().clone(), vec![1, 2, 3]).err(),
        Some(IdError::WrongSecretKeyLength(3))
    );
    assert_eq!(id.type_as_string(), "crev");
    let sig = id.sign(b"msg");
    assert_eq!(sig.len(), 64);
}

#[test]
fn several_signed_texts_read_back_in_order() {
    let (_a, p1) = generate_id_and_proof();
    let (_b, p2) = generate_id_and_proof();
    let text = format!("{}{}", p1.to_text(), p2.to_text());
    let parts = crev::framing::parse_text(&text).unwrap();
    assert_eq!(parts.len(), 2);
    assert_eq!(parts[0].body, p1.body());
    assert_eq!(parts[1].body, p2.body());
    assert_eq!(parts[0].signature.trim(), p1.signature());
    assert_eq!(parts[1].signature.trim(), p2.signature());
}

#[test]
fn code_review_draft_roundtrip() {
    let id = UnlockedId::generate_for_git_url("https://c");
    let mut b = CodeBuilder::default();
    b.from(id.id.clone()).package(package_info("s")).comment("c".into());
    let code = b.build().unwrap();
    assert_eq!(code.kind(), "code review");
    assert_eq!(code.draft_title(), "Code Review of 0 files of name 1.0.0");
    let back = code.apply_draft(CodeDraft::from(code.clone())).unwrap();
    assert_eq!(back.comment, code.comment);
    assert_eq!(back.review, code.review);
    let mut other = code.clone();
    other.common.kind = Some("trust".into());
    assert!(other.validate_data().is_err());
    assert_eq!(CodeBuilder::default().build().err(), Some(Error::BuildingReview("`common` must be initialized".into())));
}

#[test]
fn trimming_twice_trims_once() {
    let v: Vec<char> = " \t a b \n".chars().collect();
    let once = crev::text::trim_chars(&v);
    let twice = crev::text::trim_chars(&once);
    assert_eq!(once, vec!['a', ' ', 'b']);
    assert_eq!(once, twice);
}

#[test]
fn proof_digest_is_the_digest_of_its_body() {
    let (_id, proof) = generate_id_and_proof();
    assert_eq!(proof.digest(), &crev::common::blake2b256sum(proof.body().as_bytes()));
    let p = Proof::from_parts(proof.body().to_owned(), "sig\n".into(), proof.common().clone()).unwrap();
    assert_eq!(p.digest(), &crev::common::blake2b256sum(p.body().as_bytes()));
    assert_eq!(p.digest(), proof.digest());
    let mut legacy_common = proof.common().clone();
    legacy_common.kind = None;
    let l = Proof::from_legacy_parts(
        "version: -1\nrating: positive\n".into(),
        "sig\n".into(),
        "package review".into(),
        legacy_common,
    )
    .unwrap();
    assert_eq!(l.digest(), &crev::common::blake2b256sum(b"version: -1\nrating: positive\n"));
}

#[test]
fn fresh_signature_has_86_characters() {
    let (_id, proof) = generate_id_and_proof();
    assert_eq!(proof.signature().len(), 86);
}

#[test]
fn multi_line_signature_reads_back() {
    let text = "----- BEGIN CREV PROOF -----\nkind: x\n----- SIGN CREV PROOF -----\nabc\ndef\n----- END CREV PROOF -----\n";
    let parts = crev::framing::parse_text(text).unwrap();
    assert_eq!(parts.len(), 1);
    assert_eq!(parts[0].body, "kind: x\n");
    assert_eq!(parts[0].signature, "abc\ndef\n");
    assert_eq!(crev::proofs::proof_text_of("kind: x\n", "abc\ndef"), text);
}
