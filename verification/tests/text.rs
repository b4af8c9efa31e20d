use unified_share::text::{
    chars_of, fields_of, lines_of, parse_usize, push_decimal, to_hex, trimmed,
};

fn strings(v: Vec<Vec<char>>) -> Vec<String> {
    v.into_iter().map(|l| l.into_iter().collect()).collect()
}

#[test]
fn lines_match_std() {
    for text in ["", "a", "a\n", "a\r\nb", "a\n\nb\n", "\r", "x\r", "\n", "a\rb\n"] {
        let mine = strings(lines_of(&chars_of(text)));
        let std: Vec<String> = text.lines().map(str::to_owned).collect();
        assert_eq!(mine, std, "lines of {text:?}");
    }
}

#[test]
fn fields_match_std() {
    for text in ["", "  ", "a b", " a\tb \n c ", "x\u{3000}y\u{a0}z"] {
        let mine = strings(fields_of(&chars_of(text)));
        let std: Vec<String> = text.split_whitespace().map(str::to_owned).collect();
        assert_eq!(mine, std, "fields of {text:?}");
    }
}

#[test]
fn trim_matches_std() {
    for text in ["", "  ", " a ", "\u{2003}b\u{2028}", "a b"] {
        let mine: String = trimmed(&chars_of(text)).into_iter().collect();
        assert_eq!(mine, text.trim());
    }
}

#[test]
fn parse_matches_std() {
    for text in ["0", "+7", "", "+", "-1", "12a", "007", "18446744073709551615", "18446744073709551616", "99999999999999999999"] {
        assert_eq!(parse_usize(&chars_of(text)), text.parse::<usize>().ok(), "parse {text:?}");
    }
}

#[test]
fn decimal_and_hex() {
    let mut s = String::from("n=");
    push_decimal(&mut s, 0);
    push_decimal(&mut s, 1234567890);
    assert_eq!(s, "n=01234567890");
    let mut s = String::new();
    push_decimal(&mut s, u64::MAX);
    assert_eq!(s, u64::MAX.to_string());
    assert_eq!(to_hex(&vec![0x00, 0xab, 0x0f, 0xff]), "00ab0fff");
}
