use chess::moves::{move_message, parse_move_line, parse_move_request, Move};
use chess::text::{chars_of, format_isize, format_usize, parse_isize, split_whitespace, trim};

fn mv(a: isize, b: isize, c: isize, d: isize) -> Move {
    Move { source_row: a, source_col: b, destination_row: c, destination_col: d }
}

fn parse(t: &str) -> Option<isize> {
    parse_isize(&chars_of(t))
}

#[test]
fn trims_white_space_on_both_ends() {
    assert_eq!(trim("  White\n"), "White");
    assert_eq!(trim("\t a b \r\n"), "a b");
    assert_eq!(trim(" \n\t"), "");
    assert_eq!(trim(""), "");
    assert_eq!(trim("\u{3000}x\u{00A0}"), "x");
    assert_eq!(trim("x\0"), "x\0");
}

#[test]
fn splits_on_white_space() {
    let words: Vec<String> = split_whitespace(&chars_of("  1 2\t\t3\n4  "))
        .iter()
        .map(|w| w.iter().collect())
        .collect();
    assert_eq!(words, vec!["1", "2", "3", "4"]);
    assert!(split_whitespace(&chars_of(" \n ")).is_empty());
}

#[test]
fn parses_signed_numbers() {
    assert_eq!(parse("7"), Some(7));
    assert_eq!(parse("+12"), Some(12));
    assert_eq!(parse("-40"), Some(-40));
    assert_eq!(parse("007"), Some(7));
    assert_eq!(parse(""), None);
    assert_eq!(parse("-"), None);
    assert_eq!(parse("+"), None);
    assert_eq!(parse("1a"), None);
    assert_eq!(parse("--1"), None);
    assert_eq!(parse(&isize::MAX.to_string()), Some(isize::MAX));
    assert_eq!(parse(&isize::MIN.to_string()), Some(isize::MIN));
    assert_eq!(parse("99999999999999999999999"), None);
    assert_eq!(parse("-99999999999999999999999"), None);
}

#[test]
fn parsing_agrees_with_std() {
    for t in ["0", "+0", "-0", "42", "-17", "x", "", "+", "1 ", "9223372036854775808", "-9223372036854775808", "-9223372036854775809"] {
        assert_eq!(parse(t), t.parse::<isize>().ok(), "token {:?}", t);
    }
}

#[test]
fn formats_numbers_in_decimal() {
    assert_eq!(format_isize(0), "0");
    assert_eq!(format_isize(-305), "-305");
    assert_eq!(format_isize(isize::MIN), isize::MIN.to_string());
    assert_eq!(format_isize(isize::MAX), isize::MAX.to_string());
    assert_eq!(format_usize(1234567), "1234567");
    assert_eq!(format_usize(usize::MAX), usize::MAX.to_string());
}

#[test]
fn move_message_is_four_numbers_and_a_newline() {
    assert_eq!(move_message(&mv(2, 3, 4, 5)), "2 3 4 5\n");
    assert_eq!(move_message(&mv(-1, 10, 0, 7)), "-1 10 0 7\n");
}

#[test]
fn move_line_round_trip() {
    for m in [mv(1, 2, 3, 4), mv(7, 7, 1, 1), mv(-3, 0, isize::MAX, isize::MIN)] {
        assert_eq!(parse_move_line(&move_message(&m)), Some(m));
    }
}

#[test]
fn move_line_reads_the_first_four_words() {
    assert_eq!(parse_move_line("1 2 3 4"), Some(mv(1, 2, 3, 4)));
    assert_eq!(parse_move_line("  6\t5  4 3 extra words"), Some(mv(6, 5, 4, 3)));
    assert_eq!(parse_move_line("1 2 3"), None);
    assert_eq!(parse_move_line("1 2 x 4"), None);
    assert_eq!(parse_move_line(""), None);
}

#[test]
fn request_move_is_found() {
    let request = "GET /makeMove?source=2-3&destination=4-5 HTTP/1.1\r\nHost: localhost\r\n\r\n";
    assert_eq!(parse_move_request(request), Some(mv(2, 3, 4, 5)));
}

#[test]
fn request_move_takes_the_last_match_on_the_first_line() {
    let request = "GET /makeMove?source=1-1&destination=2-2&source=3-3&destination=4-4 HTTP/1.1\r\nsource=5-5&destination=6-6\r\n";
    assert_eq!(parse_move_request(request), Some(mv(3, 3, 4, 4)));
}

#[test]
fn request_move_must_be_on_the_first_line() {
    let request = "GET /makeMove HTTP/1.1\r\nReferer: x?source=1-2&destination=3-4\r\n";
    assert_eq!(parse_move_request(request), None);
}

#[test]
fn request_move_digits_are_one_to_seven() {
    assert_eq!(parse_move_request("GET /makeMove?source=8-3&destination=4-5"), None);
    assert_eq!(parse_move_request("GET /makeMove?source=0-3&destination=4-5"), None);
    assert_eq!(parse_move_request("GET /makeMove?source=7-1&destination=1-7"), Some(mv(7, 1, 1, 7)));
    assert_eq!(parse_move_request("source=2-3&destination=4-"), None);
}
