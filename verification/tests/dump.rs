use mtui::app::dump::csv_line;

#[test]
fn csv_lines_quote_only_what_needs_it() {
    assert_eq!(csv_line(&["holding", "5", "a b"]), "holding,5,a b\n");
    assert_eq!(
        csv_line(&["set: v, A", "say \"hi\"", ""]),
        "\"set: v, A\",\"say \"\"hi\"\"\",\n"
    );
}
