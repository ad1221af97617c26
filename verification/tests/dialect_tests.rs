use hwisak_rs::dialect::split_csv_line;

#[test]
fn split_plain_fields() {
    let r = split_csv_line("a,b,c");
    assert_eq!(r, vec!["a".to_string(), "b".to_string(), "c".to_string()]);
}

#[test]
fn split_quoted_field_keeps_delimiter() {
    let r = split_csv_line("a,\"b,c\",d");
    assert_eq!(r, vec!["a".to_string(), "b,c".to_string(), "d".to_string()]);
}

#[test]
fn split_field_count_matches_unquoted_delimiters() {
    // three delimiters outside quotes, one inside: four fields
    let r = split_csv_line("w,\"x,y\",z,");
    assert_eq!(r.len(), 4);
    assert_eq!(r[3], "");
}

#[test]
fn split_final_field_emitted_even_if_empty() {
    let r = split_csv_line("a,");
    assert_eq!(r, vec!["a".to_string(), "".to_string()]);
}

#[test]
fn split_empty_line_yields_one_field() {
    let r = split_csv_line("");
    assert_eq!(r, vec!["".to_string()]);
}

#[test]
fn split_unterminated_quote_emitted_as_is() {
    let r = split_csv_line("a,\"bc,d");
    assert_eq!(r, vec!["a".to_string(), "bc,d".to_string()]);
}

#[test]
fn split_quote_characters_are_consumed() {
    let r = split_csv_line("\"abc\"");
    assert_eq!(r, vec!["abc".to_string()]);
}
