use capeit::number::{decimal_string, parse_decimal};
use capeit::text::{chars_of, lines_of, split_by, string_of, trim_chars, words_of};

fn strs(v: Vec<Vec<char>>) -> Vec<String> {
    v.iter().map(|x| x.iter().collect()).collect()
}

#[test]
fn lines_like_std() {
    for s in ["", "a", "a\n", "a\n\nb", "a\r\nb\r\n", "x\r", "\n", "\r\n\r\n", "é\nü"] {
        let got = strs(lines_of(&chars_of(s)));
        let want: Vec<String> = s.lines().map(|l| l.to_string()).collect();
        assert_eq!(got, want, "{:?}", s);
    }
}

#[test]
fn words_like_std() {
    for s in ["", "   ", "a", " a  b\tc\n", "\u{3000}x\u{a0}y\u{85}", "ab"] {
        let got = strs(words_of(&chars_of(s)));
        let want: Vec<String> = s.split_whitespace().map(|w| w.to_string()).collect();
        assert_eq!(got, want, "{:?}", s);
    }
}

#[test]
fn trim_like_std() {
    for s in ["", " ", " a b ", "\t\nx\u{2028}", "\u{200b}y"] {
        let got: String = trim_chars(&chars_of(s)).iter().collect();
        assert_eq!(got, s.trim(), "{:?}", s);
    }
}

#[test]
fn split_like_std() {
    for s in ["", ",", "a,b", ",a,,b,"] {
        let got = strs(split_by(&chars_of(s), &chars_of(",")));
        let want: Vec<String> = s.split(',').map(|w| w.to_string()).collect();
        assert_eq!(got, want, "{:?}", s);
    }
    let got = strs(split_by(&chars_of("aaaa"), &chars_of("aa")));
    assert_eq!(got, vec!["", "", ""]);
}

#[test]
fn decimal_texts() {
    for n in [0u64, 7, 10, 99, 1000, u64::MAX] {
        assert_eq!(decimal_string(n), n.to_string());
    }
}

#[test]
fn parse_like_std() {
    for s in ["0", "42", "+42", "-1", "", "+", "4294967295", "4294967296", "007", "1 ", "١"] {
        assert_eq!(parse_decimal(&chars_of(s), u32::MAX as u64), s.parse::<u32>().ok().map(|v| v as u64), "{:?}", s);
    }
    for s in ["18446744073709551615", "18446744073709551616", "99999999999999999999999"] {
        assert_eq!(parse_decimal(&chars_of(s), u64::MAX), s.parse::<u64>().ok(), "{:?}", s);
    }
}

#[test]
fn string_round_trip() {
    assert_eq!(string_of(&chars_of("héllo")), "héllo");
}
