use gvm_guest::text::{find_from, octet_text, parse_at_most, strip_newline};

#[test]
fn strip_newline_takes_one_line_feed() {
    assert_eq!(strip_newline("aa:bb\n"), "aa:bb");
    assert_eq!(strip_newline("aa:bb\n\n"), "aa:bb\n");
    assert_eq!(strip_newline("\n"), "");
}

#[test]
fn strip_newline_leaves_other_text() {
    assert_eq!(strip_newline("aa:bb"), "aa:bb");
    assert_eq!(strip_newline(""), "");
    assert_eq!(strip_newline("\naa"), "\naa");
    assert_eq!(strip_newline("aa\r"), "aa\r");
    assert_eq!(strip_newline("aa\r\n"), "aa\r");
}

#[test]
fn strip_newline_counts_characters_not_bytes() {
    assert_eq!(strip_newline("é\n"), "é");
    assert_eq!(strip_newline("日本\n"), "日本");
}

#[test]
fn find_from_gives_first_position() {
    assert_eq!(find_from("a/b/c", '/', 0), 1);
    assert_eq!(find_from("a/b/c", '/', 1), 1);
    assert_eq!(find_from("a/b/c", '/', 2), 3);
    assert_eq!(find_from("/a", '/', 0), 0);
}

#[test]
fn find_from_gives_length_when_absent() {
    assert_eq!(find_from("abc", '/', 0), 3);
    assert_eq!(find_from("a/b", '/', 2), 3);
    assert_eq!(find_from("a/b", '/', 3), 3);
    assert_eq!(find_from("", '/', 0), 0);
}

#[test]
fn find_from_counts_characters_not_bytes() {
    assert_eq!(find_from("é/x", '/', 0), 1);
    assert_eq!(find_from("日本語/", '/', 0), 3);
}

#[test]
fn parse_at_most_reads_numbers() {
    assert_eq!(parse_at_most("0", 32), Some(0));
    assert_eq!(parse_at_most("7", 32), Some(7));
    assert_eq!(parse_at_most("24", 32), Some(24));
    assert_eq!(parse_at_most("32", 32), Some(32));
    assert_eq!(parse_at_most("100000000", 100_000_000), Some(100_000_000));
}

#[test]
fn parse_at_most_takes_sign_and_leading_zeros() {
    assert_eq!(parse_at_most("+24", 32), Some(24));
    assert_eq!(parse_at_most("024", 32), Some(24));
    assert_eq!(parse_at_most("+000", 32), Some(0));
    assert_eq!(parse_at_most("0000000000000000000000032", 32), Some(32));
}

#[test]
fn parse_at_most_refuses_what_is_above_the_limit() {
    assert_eq!(parse_at_most("33", 32), None);
    assert_eq!(parse_at_most("320", 32), None);
    assert_eq!(parse_at_most("4294967296", 32), None);
    assert_eq!(parse_at_most("99999999999999999999999999", 32), None);
    assert_eq!(parse_at_most("1", 0), None);
    assert_eq!(parse_at_most("0", 0), Some(0));
}

#[test]
fn parse_at_most_refuses_what_is_no_number() {
    assert_eq!(parse_at_most("", 32), None);
    assert_eq!(parse_at_most("+", 32), None);
    assert_eq!(parse_at_most("-1", 32), None);
    assert_eq!(parse_at_most("-0", 32), None);
    assert_eq!(parse_at_most("++1", 32), None);
    assert_eq!(parse_at_most("1+", 32), None);
    assert_eq!(parse_at_most(" 24", 32), None);
    assert_eq!(parse_at_most("24 ", 32), None);
    assert_eq!(parse_at_most("2a", 32), None);
    assert_eq!(parse_at_most("0x10", 32), None);
    assert_eq!(parse_at_most("٢٤", 32), None);
}

#[test]
fn octet_text_writes_decimal() {
    assert_eq!(octet_text(0), "0");
    assert_eq!(octet_text(9), "9");
    assert_eq!(octet_text(10), "10");
    assert_eq!(octet_text(99), "99");
    assert_eq!(octet_text(100), "100");
    assert_eq!(octet_text(128), "128");
    assert_eq!(octet_text(205), "205");
    assert_eq!(octet_text(255), "255");
}

#[test]
fn octet_text_agrees_with_std_for_every_byte() {
    for n in 0..=255u8 {
        assert_eq!(octet_text(n), format!("{}", n));
    }
}
