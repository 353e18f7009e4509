use krpano::chars::{accepts, chars_of, parse_u32, split_at};

fn chars(text: &str) -> Vec<char> {
    text.chars().collect()
}

#[test]
fn chars_of_a_text() {
    assert_eq!(chars_of(""), Vec::<char>::new());
    assert_eq!(chars_of("a,é%0"), vec!['a', ',', 'é', '%', '0']);
}

#[test]
fn accepts_the_mark_or_all_but_the_mark() {
    assert!(accepts('0', '0', true));
    assert!(!accepts('1', '0', true));
    assert!(accepts('a', '%', false));
    assert!(!accepts('%', '%', false));
}

#[test]
fn split_at_each_separator() {
    assert_eq!(split_at(&chars(""), ','), vec![chars("")]);
    assert_eq!(split_at(&chars("abc"), ','), vec![chars("abc")]);
    assert_eq!(split_at(&chars("a,bc"), ','), vec![chars("a"), chars("bc")]);
    assert_eq!(split_at(&chars(",a,,b,"), ','), vec![chars(""), chars("a"), chars(""), chars("b"), chars("")]);
    assert_eq!(split_at(&chars("6x7xé"), 'x'), vec![chars("6"), chars("7"), chars("é")]);
}

#[test]
fn split_at_agrees_with_std() {
    for text in ["", ",", ",,", "a", "a,", ",a", "3,6x7,8x8,9x1x4", "é,ü,,"] {
        let expected: Vec<Vec<char>> = text.split(',').map(chars).collect();
        assert_eq!(split_at(&chars(text), ','), expected, "{}", text);
    }
}

#[test]
fn parse_u32_reads_decimal_numbers() {
    assert_eq!(parse_u32(&chars("0")), Some(0));
    assert_eq!(parse_u32(&chars("31646")), Some(31646));
    assert_eq!(parse_u32(&chars("+512")), Some(512));
    assert_eq!(parse_u32(&chars("000512")), Some(512));
    assert_eq!(parse_u32(&chars("4294967295")), Some(4294967295));
}

#[test]
fn parse_u32_refuses_what_is_no_number() {
    for text in ["", "+", "-1", "1-", "12a", "a12", " 12", "12 ", "1.5", "0x10", "4294967296", "42949672950"] {
        assert_eq!(parse_u32(&chars(text)), None, "{}", text);
    }
}

#[test]
fn parse_u32_agrees_with_std() {
    for text in ["", "+", "-", "+0", "-0", "00", "+00012", "12+", "4294967295", "4294967296", "18446744073709551616", "१२"] {
        assert_eq!(parse_u32(&chars(text)), text.parse::<u32>().ok(), "{}", text);
    }
}
