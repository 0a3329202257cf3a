use crev::table::Table;

fn table() -> Table {
    let mut t = Table::new();
    t.left_col("name");
    t.center_col("trust");
    t.right_col("count");
    t.add_row("|a|high|1".to_string());
    t.add_row("|b|low|2".to_string());
    t.add_row("|c|none|3".to_string());
    t
}

#[test]
fn markdown_of_all_rows() {
    assert_eq!(
        table().as_markdown(None),
        "|:-|:-:|-:\n|**name**|**trust**|**count**\n|:-|:-:|-:\n|a|high|1\n|b|low|2\n|c|none|3\n|-"
    );
}

#[test]
fn markdown_of_the_last_rows() {
    assert_eq!(
        table().as_markdown(Some(2)),
        "|:-|:-:|-:\n|**name**|**trust**|**count**\n|:-|:-:|-:\n|b|low|2\n|c|none|3"
    );
    assert!(table().as_markdown(Some(10)).ends_with("|a|high|1\n|b|low|2\n|c|none|3"));
    assert!(table().as_markdown(Some(0)).ends_with("|:-|:-:|-:\n"));
    assert_eq!(Table::new().as_markdown(None), "\n\n\n\n|-");
}
