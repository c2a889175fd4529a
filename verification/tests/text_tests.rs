use sqlcord::text::{
    char_is_ascii_alphanumeric, char_is_digit, char_is_whitespace, char_to_lower, chars_of,
    decimal_chars, find_sub, int_chars, parse_i64, parse_u32, replace_all, split_lines,
    split_on_char, split_words, string_of, trim_vec, vec_eq_ignore_case,
};
use sqlcord::values::is_float_literal;

fn chars(s: &str) -> Vec<char> {
    s.chars().collect()
}

fn text(v: &[char]) -> String {
    v.iter().collect()
}

const SAMPLES: &[&str] = &[
    "",
    " ",
    "a",
    "  a  ",
    "\t a b\u{a0}c \n",
    "a,b,,c,",
    ",",
    "one two  three",
    " lead and trail ",
    "line1\nline2\r\nline3\r",
    "\n",
    "\r\n",
    "a\n\nb\n",
    "x: y: z",
    ": ",
    "::  ::",
    "é\u{2003}ü\u{3000}ß",
    "DATA:\nDATA:\n",
    "aaa",
    "abababa",
];

#[test]
fn whitespace_is_the_unicode_property() {
    for code in 0u32..=0x10FFFF {
        if let Some(c) = char::from_u32(code) {
            assert_eq!(char_is_whitespace(c), c.is_whitespace(), "U+{:04X}", code);
        }
    }
}

#[test]
fn ascii_classes_agree_with_the_standard_ones() {
    for code in 0u32..=0x10FFFF {
        if let Some(c) = char::from_u32(code) {
            assert_eq!(char_is_digit(c), c.is_ascii_digit(), "U+{:04X}", code);
            assert_eq!(char_is_ascii_alphanumeric(c), c.is_ascii_alphanumeric(), "U+{:04X}", code);
            assert_eq!(char_to_lower(c), c.to_ascii_lowercase(), "U+{:04X}", code);
        }
    }
}

#[test]
fn strings_and_character_vectors_convert_both_ways() {
    for s in SAMPLES {
        assert_eq!(chars_of(s), chars(s));
        assert_eq!(string_of(&chars(s)), *s);
    }
}

#[test]
fn trim_agrees_with_the_standard_trim() {
    for s in SAMPLES {
        assert_eq!(text(&trim_vec(&chars(s))), s.trim(), "{:?}", s);
    }
}

#[test]
fn split_on_char_agrees_with_the_standard_split() {
    for s in SAMPLES {
        for c in [',', ' ', ':', 'a'] {
            let got: Vec<String> = split_on_char(&chars(s), c).iter().map(|p| text(p)).collect();
            let expected: Vec<String> = s.split(c).map(|p| p.to_string()).collect();
            assert_eq!(got, expected, "{:?} {:?}", s, c);
        }
    }
}

#[test]
fn split_words_agrees_with_split_whitespace() {
    for s in SAMPLES {
        let got: Vec<String> = split_words(&chars(s)).iter().map(|p| text(p)).collect();
        let expected: Vec<String> = s.split_whitespace().map(|p| p.to_string()).collect();
        assert_eq!(got, expected, "{:?}", s);
    }
}

#[test]
fn split_lines_agrees_with_the_standard_lines() {
    for s in SAMPLES {
        for from in 0..=s.chars().count() {
            let rest: String = s.chars().skip(from).collect();
            let got: Vec<String> = split_lines(&chars(s), from).iter().map(|p| text(p)).collect();
            let expected: Vec<String> = rest.lines().map(|p| p.to_string()).collect();
            assert_eq!(got, expected, "{:?} from {}", s, from);
        }
    }
}

#[test]
fn find_and_replace_agree_with_the_standard_ones() {
    let patterns = ["", "a", ": ", "aa", "ab", "aba", "DATA:\n", "zz", "\n"];
    for s in SAMPLES {
        for p in patterns {
            let found = find_sub(&chars(s), &chars(p));
            let expected = s.find(p).map(|byte| s[..byte].chars().count());
            assert_eq!(found, expected, "{:?} {:?}", s, p);
            if !p.is_empty() {
                for to in ["", " ", "xyz"] {
                    assert_eq!(
                        text(&replace_all(&chars(s), &chars(p), &chars(to))),
                        s.replace(p, to),
                        "{:?} {:?} {:?}",
                        s,
                        p,
                        to
                    );
                }
            }
        }
        assert_eq!(text(&replace_all(&chars(s), &Vec::new(), &chars("x"))), *s);
    }
}

#[test]
fn case_is_ignored_for_ascii_letters_only() {
    assert!(vec_eq_ignore_case(&chars("NuLl"), &chars("null")));
    assert!(vec_eq_ignore_case(&chars(""), &chars("")));
    assert!(!vec_eq_ignore_case(&chars("null"), &chars("nul")));
    assert!(!vec_eq_ignore_case(&chars("É"), &chars("é")));
    assert!(!vec_eq_ignore_case(&chars("pr\u{131}mary"), &chars("PRIMARY")));
}

#[test]
fn decimal_writing_agrees_with_the_standard_one() {
    for n in [0u64, 1, 9, 10, 99, 100, 12345, u32::MAX as u64, u64::MAX] {
        assert_eq!(text(&decimal_chars(n)), n.to_string());
    }
    for v in [0i64, 1, -1, 10, -10, 255, i64::MAX, i64::MIN, i64::MIN + 1] {
        assert_eq!(text(&int_chars(v)), v.to_string());
    }
}

const NUMBERS: &[&str] = &[
    "", "+", "-", "0", "-0", "+0", "00", "007", "+7", "-7", "++7", "+-7", "7+", " 7", "7 ", "1_000",
    "4294967295", "4294967296", "+4294967295", "-1", "9223372036854775807", "9223372036854775808",
    "-9223372036854775808", "-9223372036854775809", "18446744073709551616",
    "000000000000000000000000000000001", "99999999999999999999999999999999999999999999", "١٢٣",
    "1.0", "1e3", "0x1f", "a", "１",
];

#[test]
fn integer_parsing_agrees_with_the_standard_one() {
    for s in NUMBERS {
        assert_eq!(parse_u32(&chars(s)), s.parse::<u32>().ok(), "{:?}", s);
        assert_eq!(parse_i64(&chars(s)), s.parse::<i64>().ok(), "{:?}", s);
    }
}

#[test]
fn float_grammar_agrees_with_the_standard_parser() {
    let pieces = ["", "+", "-", "0", "12", ".", "e", "E", "e+", "e-", "inf", "INF", "Infinity", "nan", "NaN", "x", " "];
    let mut tried = 0usize;
    for a in pieces {
        for b in pieces {
            for c in pieces {
                for d in ["", "5", ".", "e", "-"] {
                    let s = format!("{}{}{}{}", a, b, c, d);
                    assert_eq!(is_float_literal(&chars(&s)), s.parse::<f64>().is_ok(), "{:?}", s);
                    tried += 1;
                }
            }
        }
    }
    assert!(tried > 20000);
    for s in NUMBERS {
        assert_eq!(is_float_literal(&chars(s)), s.parse::<f64>().is_ok(), "{:?}", s);
    }
}
