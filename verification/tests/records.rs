use curve_breakpoints::records::{blank, digit, numeral, read_record, split_fields, Field, Record};
use curve_breakpoints::zero_runs::{num_z, word};

fn fields(line: &str) -> Vec<(usize, usize)> {
    split_fields(&line.as_bytes().to_vec()).iter().map(|f| (f.start, f.end)).collect()
}

fn texts(line: &str) -> Vec<String> {
    split_fields(&line.as_bytes().to_vec())
        .iter()
        .map(|f| line[f.start..f.end].to_string())
        .collect()
}

fn record(line: &str) -> Record {
    read_record(&line.as_bytes().to_vec())
}

fn pair(x: (usize, usize), y: (usize, usize)) -> Record {
    Record::Pair { x: Field { start: x.0, end: x.1 }, y: Field { start: y.0, end: y.1 } }
}

#[test]
fn blanks_are_the_white_space_of_a_line() {
    for b in [b' ', b'\t', b'\n', b'\r', 11u8, 12u8] {
        assert!(blank(b));
    }
    for b in [b'0', b'.', b'-', b'e', b'#', 0u8, 8u8, 14u8, 31u8, 33u8, 255u8] {
        assert!(!blank(b));
    }
}

#[test]
fn fields_are_the_runs_between_blanks() {
    assert_eq!(fields(""), vec![]);
    assert_eq!(fields("   \t "), vec![]);
    assert_eq!(fields("1.5"), vec![(0, 3)]);
    assert_eq!(fields("1.5 2.5"), vec![(0, 3), (4, 7)]);
    assert_eq!(fields("  1.5\t\t2.5  \r\n"), vec![(2, 5), (7, 10)]);
    assert_eq!(fields(" 1. 1.111  100.111"), vec![(1, 3), (4, 9), (11, 18)]);
    assert_eq!(texts(" 1. 1.111  100.111"), vec!["1.", "1.111", "100.111"]);
    assert_eq!(texts("7 8 9 10"), vec!["7", "8", "9", "10"]);
}

#[test]
fn blank_and_short_records_are_skipped() {
    assert_eq!(record(""), Record::Skip);
    assert_eq!(record(" \t \r\n"), Record::Skip);
    assert_eq!(record("12.5"), Record::Skip);
    assert_eq!(record("   12.5 "), Record::Skip);
}

#[test]
fn two_fields_are_the_coordinates() {
    assert_eq!(record("2.222  220.222"), pair((0, 5), (7, 14)));
    assert_eq!(record("\t5 7\n"), pair((1, 2), (3, 4)));
}

#[test]
fn sequence_number_is_not_read() {
    assert_eq!(record("3.  3.333  300.333"), pair((4, 9), (11, 18)));
    assert_eq!(record("1 2 3"), pair((2, 3), (4, 5)));
}

fn is_numeral(text: &str) -> bool {
    numeral(&text.as_bytes().to_vec(), Field { start: 0, end: text.len() })
}

#[test]
fn digits_are_the_ten_figures() {
    for b in b'0'..=b'9' {
        assert!(digit(b));
    }
    for b in [b'/', b':', b'.', b'-', b'+', b'e', b' ', 0u8, 255u8] {
        assert!(!digit(b));
    }
}

#[test]
fn numerals_are_signed_decimals_with_or_without_exponent() {
    let numerals = [
        "0", "7", "-7", "+7", "1.5", "-1.5", ".5", "5.", "+.5e-3", "1e5", "1E5", "1e+5", "1e-5",
        "1.e5", ".1E05", "0010.0100", "123456789012345678901234567890", "1e999", "-0.0", "100.111",
    ];
    for text in numerals {
        assert!(is_numeral(text), "{}", text);
        assert!(text.parse::<f64>().is_ok(), "{}", text);
    }
}

#[test]
fn what_is_no_numeral_is_told_apart() {
    let others = [
        "", "+", "-", ".", "+.", "-.", "e5", ".e5", "+e5", "1e", "1e+", "1e-", "1e5.0", "1.2.3",
        "1..2", "..", "--1", "+-1", "1-", "1+1", "1e5e5", "1e5-", "0x10", "1_000", "1,5", " 1",
        "1 ", "1.5f", "a", "1a", "#", "1.5#",
    ];
    for text in others {
        assert!(!is_numeral(text), "{}", text);
        assert!(text.parse::<f64>().is_err(), "{}", text);
    }
    for text in ["inf", "-inf", "+infinity", "NaN", "nan"] {
        assert!(!is_numeral(text), "{}", text);
        assert!(text.parse::<f64>().is_ok(), "{}", text);
    }
}

#[test]
fn numeral_is_looked_for_within_the_field() {
    let line = "ab 12.5e1 cd".as_bytes().to_vec();
    assert!(numeral(&line, Field { start: 3, end: 9 }));
    assert!(numeral(&line, Field { start: 3, end: 7 }));
    assert!(numeral(&line, Field { start: 4, end: 5 }));
    assert!(!numeral(&line, Field { start: 3, end: 8 }));
    assert!(!numeral(&line, Field { start: 2, end: 9 }));
    assert!(!numeral(&line, Field { start: 3, end: 10 }));
    assert!(!numeral(&line, Field { start: 0, end: 2 }));
    assert!(!numeral(&line, Field { start: 5, end: 5 }));
    assert!(!numeral(&line, Field { start: 6, end: 5 }));
    assert!(!numeral(&line, Field { start: 3, end: 13 }));
    assert!(!numeral(&line, Field { start: 13, end: 13 }));
}

#[test]
fn coordinates_must_be_numerals() {
    assert_eq!(record("abc 1.0"), Record::Malformed);
    assert_eq!(record("1.0 x"), Record::Malformed);
    assert_eq!(record("# comment"), Record::Malformed);
    assert_eq!(record("1 1.0 2..0"), Record::Malformed);
    assert_eq!(record("1 1e 2.0"), Record::Malformed);
    assert_eq!(record("1.0 inf"), Record::Malformed);
    assert_eq!(record("NaN 1.0"), Record::Malformed);
    assert_eq!(record("no. 1.5 -2.5e-3"), pair((4, 7), (8, 15)));
    assert_eq!(record("+1.5\t-2."), pair((0, 4), (5, 8)));
}

#[test]
fn more_than_three_fields_are_malformed() {
    assert_eq!(record("1 2.0 3.0 4.0"), Record::Malformed);
    assert_eq!(record("a b c d e"), Record::Malformed);
}

#[test]
fn word_keeps_the_bits() {
    assert_eq!(word(0), 0);
    assert_eq!(word(5678), 5678);
    assert_eq!(word(-1), u32::MAX);
    assert_eq!(word(-123), 0xFFFF_FF85);
    assert_eq!(word(i32::MIN), 0x8000_0000);
}

#[test]
fn longest_zero_run_between_ones() {
    assert_eq!(num_z(5678), Some(3));
    assert_eq!(num_z(123), Some(1));
    assert_eq!(num_z(-123), Some(4));
    assert_eq!(num_z(0b1001), Some(2));
    assert_eq!(num_z(0b1000_0010_0001), Some(5));
    assert_eq!(num_z(i32::MIN + 1), Some(30));
    assert_eq!(num_z(0x4000_0001), Some(29));
}

#[test]
fn zero_runs_at_the_ends_do_not_count() {
    assert_eq!(num_z(0), None);
    assert_eq!(num_z(1), None);
    assert_eq!(num_z(0b1000), None);
    assert_eq!(num_z(0b0111_0000), None);
    assert_eq!(num_z(-1), None);
    assert_eq!(num_z(i32::MIN), None);
    assert_eq!(num_z(i32::MAX), None);
    assert_eq!(num_z(0b1010_0000), Some(1));
}
