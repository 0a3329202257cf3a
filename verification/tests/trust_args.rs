use crev::cli::{completion_shell, current_id_line, existing_id_hint, existing_id_warnings, new_id_url, Shell};
use crev::id::PublicId;
use crev::opts::IdNew;
use crev::url::Url;
use crev::id::Id;
use crev::trust_args::{split_ids_and_urls, trust_ids_for_urls};

fn id(n: u8) -> Id {
    let mut bytes = vec![0u8; 32];
    bytes[0] = n;
    Id::new_crev(bytes).unwrap()
}

fn strings(v: &[&str]) -> Vec<String> {
    v.iter().map(|s| s.to_string()).collect()
}

#[test]
fn ids_and_urls_are_told_apart() {
    let (urls, ids) = split_ids_and_urls(strings(&[
        "https://github.com/a/crev-proofs",
        "abc",
        "http://plain",
        "https://b",
    ]));
    assert_eq!(urls, strings(&["https://github.com/a/crev-proofs", "https://b"]));
    assert_eq!(ids, strings(&["abc", "http://plain"]));
}

#[test]
fn ids_found_for_urls() {
    let authors = vec![
        (id(1), Some("https://a".to_string())),
        (id(2), None),
        (id(3), Some("https://b".to_string())),
        (id(4), Some("https://a".to_string())),
        (id(1), Some("https://a".to_string())),
    ];
    let (ids, missing) = trust_ids_for_urls(&authors, &strings(&["https://a", "https://c", "https://a", "https://b"]));
    let found: Vec<u8> = ids.iter().map(|i| i.to_bytes()[0]).collect();
    assert_eq!(found, vec![1, 4, 3]);
    // a url no author gives, and one given again, find no ids
    assert_eq!(missing, strings(&["https://c", "https://a"]));
}

#[test]
fn completion_shells() {
    assert_eq!(completion_shell("zsh"), Ok(Shell::Zsh));
    assert_eq!(completion_shell("powershell"), Ok(Shell::PowerShell));
    assert_eq!(completion_shell("tcsh"), Err("tcsh shell not supported".to_string()));
}

#[test]
fn new_id_urls() {
    assert_eq!(
        new_id_url(IdNew { url: None, github_username: Some("alice".into()), use_https_push: false }),
        Ok(Some("https://github.com/alice/crev-proofs".to_string()))
    );
    assert_eq!(new_id_url(IdNew { url: Some("https://x".into()), github_username: None, use_https_push: false }), Ok(Some("https://x".to_string())));
    assert_eq!(new_id_url(IdNew { url: None, github_username: None, use_https_push: false }), Ok(None));
    assert_eq!(
        new_id_url(IdNew { url: Some("https://x".into()), github_username: Some("alice".into()), use_https_push: false }),
        Err("Must provide either a github username or url, but not both.".to_string())
    );
}

#[test]
fn own_id_lines() {
    let a = PublicId::new(id(1), Url::new_git("https://a".to_string()));
    let b = PublicId::new_id_only(id(2));
    assert_eq!(current_id_line(&a, &Some(a.clone())), format!("{} https://a (current)\n", id(1).to_string()));
    assert_eq!(current_id_line(&b, &Some(a.clone())), format!("{} (no url)\n", id(2).to_string()));
    assert_eq!(current_id_line(&a, &None), format!("{} https://a\n", id(1).to_string()));
}

#[test]
fn existing_id_messages() {
    let no_url = PublicId::new_id_only(id(1));
    let a = PublicId::new(id(2), Url::new_git("https://a".to_string()));
    let b = PublicId::new(id(3), Url::new_git("https://b".to_string()));
    let ids = vec![no_url.clone(), a.clone(), b.clone()];
    assert_eq!(
        existing_id_warnings(&ids),
        format!(
            "warning: you already have a CrevID {} https://a\nwarning: you already have a CrevID {} https://b\n",
            id(2).to_string(),
            id(3).to_string()
        )
    );
    assert_eq!(
        existing_id_hint(&ids, &Some(id(2))),
        "You can configure the existing CrevID with `cargo crev set-url` and `cargo crev id passwd`\n\n"
    );
    assert_eq!(
        existing_id_hint(&ids, &Some(id(1))),
        format!(
            "You can use existing CrevID with `cargo crev id switch {}`\nand set it up with `cargo crev set-url` and `cargo crev id passwd`\n\n",
            id(2).to_string()
        )
    );
    assert_eq!(existing_id_hint(&vec![no_url], &None), "");
}
