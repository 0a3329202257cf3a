use crev::cli::UrlOfId;
use crev::id::Id;
use crev::id_query::{is_listed_before, print_ids, sort_ids_for_listing};
use crev::trust::TrustLevel;
use crev::url::Url;

fn id(n: u8) -> Id {
    let mut bytes = vec![0u8; 32];
    bytes[31] = n;
    Id::new_crev(bytes).unwrap()
}

fn entry(t: TrustLevel, url: Option<&str>, n: u8) -> (TrustLevel, Option<String>, Id) {
    (t, url.map(|u| u.to_string()), id(n))
}

#[test]
fn listing_order() {
    let entries = vec![
        entry(TrustLevel::Low, Some("https://b"), 1),
        entry(TrustLevel::High, Some("https://z"), 2),
        entry(TrustLevel::Low, None, 3),
        entry(TrustLevel::Distrust, Some("https://a"), 4),
        entry(TrustLevel::Low, Some("https://a"), 6),
        entry(TrustLevel::Low, Some("https://a"), 5),
    ];
    let sorted = sort_ids_for_listing(entries);
    let order: Vec<u8> = sorted.iter().map(|e| e.2.to_bytes()[31]).collect();
    // the most trusted first; then ids without a url; then by url, then by id
    assert_eq!(order, vec![2, 3, 5, 6, 1, 4]);
}

#[test]
fn listing_order_matches_tuple_order() {
    // the order of (Reverse(trust), url, id) tuples
    let a = entry(TrustLevel::Medium, Some("https://x"), 1);
    let b = entry(TrustLevel::Medium, Some("https://xy"), 0);
    assert!(is_listed_before(&a, &b));
    assert!(!is_listed_before(&b, &a));
    assert!(!is_listed_before(&a, &a));
    let c = entry(TrustLevel::Nil, None, 0);
    assert!(is_listed_before(&a, &c));
    let mut v = vec![
        (std::cmp::Reverse(b.0), b.1.clone(), b.2.to_bytes()),
        (std::cmp::Reverse(a.0), a.1.clone(), a.2.to_bytes()),
        (std::cmp::Reverse(c.0), c.1.clone(), c.2.to_bytes()),
    ];
    v.sort();
    let sorted = sort_ids_for_listing(vec![b, c, a]);
    let ours: Vec<Vec<u8>> = sorted.iter().map(|e| e.2.to_bytes()).collect();
    let std_order: Vec<Vec<u8>> = v.into_iter().map(|e| e.2).collect();
    assert_eq!(ours, std_order);
}

#[test]
fn id_lines() {
    let url = Url::new_git("https://example.com/p".to_string());
    let ids = vec![
        (id(1), TrustLevel::High, UrlOfId::FromSelf(&url)),
        (id(2), TrustLevel::Distrust, UrlOfId::NoUrl),
    ];
    let expected = format!("{} {:6} {} {}\n", id(1).to_string(), "high", "~=", "https://example.com/p")
        + &format!("{} {:6} {} {}\n", id(2).to_string(), "distrust", "", "");
    assert_eq!(print_ids(&ids), expected);
}
