use three_rs::text::{chars_of, is_whitespace, parse_decimal, split, split_whitespace, Separator};

fn chars(s: &str) -> Vec<char> {
    s.chars().collect()
}

fn strings(v: Vec<Vec<char>>) -> Vec<String> {
    v.into_iter().map(|w| w.into_iter().collect()).collect()
}

#[test]
fn parse_decimal_reads_what_str_parse_reads() {
    for s in ["0", "7", "007", "+5", "", "+", "-5", "-0", "1a", " 1", "1 ", "٣", "12345"] {
        assert_eq!(parse_decimal(&chars(s)), s.parse::<usize>().ok(), "{s:?}");
    }
}

#[test]
fn parse_decimal_at_the_limit() {
    let max = usize::MAX.to_string();
    assert_eq!(parse_decimal(&chars(&max)), Some(usize::MAX));
    let over = format!("{}0", max);
    assert_eq!(parse_decimal(&chars(&over)), None);
    let just_over = (usize::MAX as u128 + 1).to_string();
    assert_eq!(parse_decimal(&chars(&just_over)), None);
}

#[test]
fn split_keeps_empty_pieces() {
    assert_eq!(strings(split(&chars("1//3"), Separator::Char('/'))), vec!["1", "", "3"]);
    assert_eq!(strings(split(&chars(""), Separator::Char('/'))), vec![""]);
    assert_eq!(strings(split(&chars("a/"), Separator::Char('/'))), vec!["a", ""]);
    assert_eq!(strings(split(&chars("a\nb\n"), Separator::Char('\n'))), vec!["a", "b", ""]);
}

#[test]
fn split_whitespace_matches_std() {
    for s in ["", "  ", "a", " a  b\tc\r\n", "x\u{a0}y\u{2003}z\u{3000}w", "\u{85}q\u{1680}"] {
        let expected: Vec<String> = s.split_whitespace().map(|w| w.to_string()).collect();
        assert_eq!(strings(split_whitespace(&chars(s))), expected, "{s:?}");
    }
}

#[test]
fn whitespace_is_the_unicode_property() {
    for c in ['\t', '\n', '\u{b}', '\u{c}', '\r', ' ', '\u{85}', '\u{a0}', '\u{1680}', '\u{2000}',
        '\u{200a}', '\u{2028}', '\u{2029}', '\u{202f}', '\u{205f}', '\u{3000}', 'a', '\u{200b}',
        '\u{180e}', '\u{feff}', '0']
    {
        assert_eq!(is_whitespace(c), c.is_whitespace(), "{c:?}");
    }
}

#[test]
fn chars_of_keeps_every_char() {
    assert_eq!(chars_of("é a\u{3000}"), vec!['é', ' ', 'a', '\u{3000}']);
}
