use crev::cli::UrlOfId;
use crev::id::Id;
use crev::trust::TrustLevel;
use crev::trust_log::{log_header, print_log, TraverseLogEdge, TraverseLogItem, TraverseLogNode};
use crev::url::Url;
use crev::verify_output::ColoredText;

fn id(n: u8) -> Id {
    let mut bytes = vec![0u8; 32];
    bytes[0] = n;
    Id::new_crev(bytes).unwrap()
}

fn texts(v: &[ColoredText]) -> Vec<(String, Option<u32>)> {
    v.iter().map(|t| (t.text.clone(), t.color)).collect()
}

fn edge(to: u8) -> TraverseLogEdge {
    TraverseLogEdge {
        to: id(to),
        direct_trust: TrustLevel::Medium,
        effective_trust: TrustLevel::Low,
        relative_distance: Some(3),
        no_change: false,
        ignored_distrusted: false,
        ignored_overriden: false,
        ignored_too_far: false,
        ignored_trust_too_low: false,
    }
}

#[test]
fn log_header_columns() {
    let expected = format!("{:^43}          {:>6} {:>4}\n", "TRUST-FROM-ID", "TRUST", "DIST")
        + "\\_ status URL\n"
        + &format!("  {:^43} {:>6} {:>6} +{:<3} notes\n", "TRUST-TO-ID", "D.TRST", "E.TRST", "DIS")
        + "  \\_ status URL\n";
    assert_eq!(log_header(), expected);
}

#[test]
fn log_of_a_walk() {
    let url = Url::new_git("https://example.com/p".into());
    let log = vec![
        TraverseLogItem::Node(TraverseLogNode {
            id: id(1),
            effective_trust: TrustLevel::High,
            total_distance: 0,
        }),
        TraverseLogItem::Edge(edge(2)),
    ];
    let urls = vec![UrlOfId::FromSelfVerified(&url), UrlOfId::NoUrl];
    let (header, rows) = print_log(&log, &urls, false);
    assert_eq!(header, "");
    assert_eq!(
        texts(&rows),
        vec![
            (id(1).to_string(), Some(2)),
            (format!("          {:>6} {:>4}\n", "high", 0), None),
            ("\\_ == https://example.com/p\n".to_string(), None),
            ("  ".to_string(), None),
            (id(2).to_string(), Some(4)),
            (format!(" {:>6} {:>6} {:>4} ", "medium", "low", "+3"), None),
            ("queued".to_string(), Some(2)),
            ("\n".to_string(), None),
            ("  \\_  \n".to_string(), None),
        ]
    );
    let (header, _) = print_log(&log, &urls, true);
    assert_eq!(header, log_header());
}

#[test]
fn ignored_trust_notes() {
    let mut e = edge(3);
    e.relative_distance = None;
    e.no_change = true;
    e.ignored_distrusted = true;
    e.ignored_trust_too_low = true;
    let (_, rows) = print_log(&vec![TraverseLogItem::Edge(e)], &vec![UrlOfId::NoUrl], false);
    let rows = texts(&rows);
    assert_eq!(rows[2], (format!(" {:>6} {:>6} {:>4} ", "medium", "low", "inf"), None));
    assert_eq!(
        rows[3..rows.len() - 2].to_vec(),
        vec![
            ("no change".to_string(), Some(3)),
            ("; ".to_string(), None),
            ("distrusted".to_string(), Some(1)),
            ("; ".to_string(), None),
            ("trust too low".to_string(), Some(3)),
        ]
    );
}
