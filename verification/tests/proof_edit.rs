use crev::proof_edit::proof_edit_text;
use crev::proofs::Draft;
use crev::version::Version;

#[test]
fn edit_text_with_everything() {
    let draft = Draft { title: "Package review of foo 1.0.0".into(), body: "review:\n  rating: positive\n".into() };
    let v = Version::new(0, 9, 1);
    let text = proof_edit_text(
        Some("2020-01-01T00:00:00+00:00"),
        &draft,
        Some("WARNING: read this"),
        Some(&v),
        "# override:\n",
        "Line one\r\nLine two\n",
    );
    assert_eq!(
        text,
        "# Overwriting existing proof created on 2020-01-01T00:00:00+00:00\n\
         # Package review of foo 1.0.0\n\
         # WARNING: read this\n\
         # Diff base version: 0.9.1\n\
         review:\n  rating: positive\n\
         # override:\n\
         \n\n\
         # Line one\n\
         # Line two\n"
    );
}

#[test]
fn edit_text_plain() {
    let draft = Draft { title: "T".into(), body: "b: 1\n".into() };
    assert_eq!(proof_edit_text(None, &draft, None, None, "", ""), "# T\nb: 1\n\n\n");
}
