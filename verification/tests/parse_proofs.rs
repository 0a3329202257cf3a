use crev::error::Error;
use crev::framing::{parse_text, ProofParser, ProofParts};
use crev::id::PublicId;
use crev::proofs::{Common, Date, Proof};
use crev::url::Url;

const SIG: &str =
    "4R2WjtU-avpBznmJYAl44H1lOYgETu3RSNhCDcB4GpqhJbSRkd-eqnUuhHgDUs77OlhUf7BSA0dydxaALwx0Dg";

const ONE: &str = r#"
-----BEGIN CREV PACKAGE REVIEW-----
version: -1
date: "2018-12-18T23:10:21.111854021-08:00"
from:
  id-type: crev
  id: FYlr8YoYGVvDwHQxqEIs89reKKDy-oWisoO0qXXEfHE
  url: "https://github.com/dpc/crev-proofs"
package:
  source: "https://crates.io"
  name: log
  version: 0.4.6
  digest: BhDmOOjfESqs8i3z9qsQANH8A39eKklgQKuVtrwN-Tw
review:
  thoroughness: low
  understanding: medium
  rating: positive
-----BEGIN CREV PACKAGE REVIEW SIGNATURE-----
4R2WjtU-avpBznmJYAl44H1lOYgETu3RSNhCDcB4GpqhJbSRkd-eqnUuhHgDUs77OlhUf7BSA0dydxaALwx0Dg
-----END CREV PACKAGE REVIEW-----
"#;

/// Reads the common part of a proof body from its YAML, as the proof reader
/// does before it builds a proof.
fn common_from_yaml(body: &str) -> Common {
    let v: serde_yaml::Value = serde_yaml::from_str(body).unwrap();
    let kind = v.get("kind").and_then(|k| k.as_str()).map(|s| s.to_string());
    let version = v.get("version").unwrap().as_i64().unwrap();
    let date_text = v.get("date").unwrap().as_str().unwrap();
    let d = chrono::DateTime::parse_from_rfc3339(date_text).unwrap();
    let date = Date {
        timestamp: d.timestamp(),
        nanos: d.timestamp_subsec_nanos(),
        offset_seconds: d.offset().local_minus_utc(),
    };
    let from = v.get("from").unwrap();
    let id = from.get("id").unwrap().as_str().unwrap();
    let url = from.get("url").unwrap().as_str().unwrap();
    let from = PublicId::new_crevid_from_base64(id, Url::new_git(url.to_string())).unwrap();
    Common { kind, version, date, from, original: None }
}

/// What the proof reader makes of a text: frames, then a proof per frame.
fn parse_from(text: &str) -> Result<Vec<Proof>, Error> {
    let parts = parse_text(text)?;
    let mut out = vec![];
    for p in parts {
        let ProofParts { body, signature, legacy_type } = p;
        let common = common_from_yaml(&body);
        let proof = match legacy_type {
            Some(t) => Proof::from_legacy_parts(body, signature, t, common)?,
            None => Proof::from_parts(body, signature, common)?,
        };
        out.push(proof);
    }
    Ok(out)
}

#[test]
fn signed_parse() {
    let proofs = parse_from(ONE).unwrap();
    assert_eq!(proofs.len(), 1);
    assert_eq!(proofs[0].signature(), SIG);
}

#[test]
fn signed_parse_multiple() {
    let s = format!("\n{}{}", ONE.trim_start_matches('\n'), ONE.trim_start_matches('\n'));
    let s = format!("\n{}", s);
    let proofs = parse_from(&s).unwrap();
    assert_eq!(proofs.len(), 2);
    assert_eq!(proofs[0].signature(), SIG);
    assert_eq!(proofs[1].signature(), SIG);
}

#[test]
fn signed_parse_multiple_newlines() {
    let s = format!("\n{}\n\n\n{}\n", ONE, ONE.trim_start_matches('\n'));
    let proofs = parse_from(&s).unwrap();
    assert_eq!(proofs.len(), 2);
    assert_eq!(proofs[0].signature(), SIG);
    assert_eq!(proofs[1].signature(), SIG);
}

#[test]
fn legacy_frame_gives_kind_and_body() {
    let parts = parse_text(ONE).unwrap();
    assert_eq!(parts.len(), 1);
    assert_eq!(parts[0].legacy_type.as_deref(), Some("package review"));
    assert!(parts[0].body.starts_with("version: -1\n"));
    assert!(parts[0].body.ends_with("  rating: positive\n"));
    assert_eq!(parts[0].signature, format!("{}\n", SIG));
    let proofs = parse_from(ONE).unwrap();
    assert_eq!(proofs[0].kind(), "package review");
}

#[test]
fn current_format_frame() {
    let text = "----- BEGIN CREV PROOF -----\nkind: trust\n----- SIGN CREV PROOF -----\nabc\n----- END CREV PROOF -----\n";
    let parts = parse_text(text).unwrap();
    assert_eq!(parts.len(), 1);
    assert_eq!(parts[0].body, "kind: trust\n");
    assert_eq!(parts[0].signature, "abc\n");
    assert!(parts[0].legacy_type.is_none());
}

#[test]
fn frame_errors() {
    assert_eq!(
        parse_text("garbage\n").err(),
        Some(Error::ParsingErrorWhenLookingForStartOfCodeReviewProof)
    );
    assert_eq!(
        parse_text("----- BEGIN CREV PROOF -----\nbody\n").err(),
        Some(Error::UnexpectedEOFWhileParsing)
    );
    assert_eq!(
        parse_text("-----BEGIN CREV TRUST-----\nx\n-----BEGIN CREV REVIEW SIGNATURE-----\n").err(),
        Some(Error::ParsingErrorTypeNameMismatchInTheSignature)
    );
    assert_eq!(
        parse_text(
            "-----BEGIN CREV TRUST-----\nx\n-----BEGIN CREV TRUST SIGNATURE-----\ns\n-----END CREV REVIEW-----\n"
        )
        .err(),
        Some(Error::ParsingErrorTypeNameMismatchInTheFooter)
    );
    let long_body = format!("----- BEGIN CREV PROOF -----\n{}\n", "a".repeat(32_001));
    assert_eq!(parse_text(&long_body).err(), Some(Error::ProofBodyTooLong));
    let long_sig = format!(
        "----- BEGIN CREV PROOF -----\nb\n----- SIGN CREV PROOF -----\n{}\n",
        "s".repeat(2_001)
    );
    assert_eq!(parse_text(&long_sig).err(), Some(Error::SignatureTooLong));
}

#[test]
fn parser_reports_lines_it_cannot_take() {
    let p = ProofParser::new();
    assert!(p.line_would_panic("-----BEGIN CREV -----"));
    assert!(!p.line_would_panic("----- BEGIN CREV PROOF -----"));
    assert!(crev::framing::text_would_panic("\n-----BEGIN CREV -----\n"));
    assert!(!crev::framing::text_would_panic(ONE));
}

#[test]
fn kind_field_is_required_in_current_format() {
    let mut common = common_from_yaml(
        "version: -1\ndate: \"2018-12-18T23:10:21.111854021-08:00\"\nfrom:\n  id: FYlr8YoYGVvDwHQxqEIs89reKKDy-oWisoO0qXXEfHE\n  url: \"https://x\"\n",
    );
    assert_eq!(
        Proof::from_parts("b\n".into(), "s\n".into(), common.clone()).err(),
        Some(Error::KindFieldMissing)
    );
    common.kind = Some("trust".into());
    assert_eq!(
        Proof::from_legacy_parts("b\n".into(), "s\n".into(), "trust".into(), common).err(),
        Some(Error::UnexpectedKindValueInALegacyFormat)
    );
}
