use servidor_http::bytes::find_bytes;
use servidor_http::text::{
    contains, cut, find, is_space, spells, split_line, to_chars, to_string, token, trimmed,
};

fn chars(s: &str) -> Vec<char> {
    s.chars().collect()
}

fn text(s: &[char]) -> String {
    s.iter().collect()
}

const SAMPLES: [&str; 16] = [
    "",
    " ",
    "a",
    "  a  ",
    "\t\r\n a b \u{a0}\u{3000}",
    "GET / HTTP/1.1",
    "one\ntwo",
    "one\r\ntwo\r\n",
    "\r\n",
    "\n\n",
    "a\rb\r",
    "\r",
    "caf\u{e9} \u{2003}\u{4e2d}\u{6587}\u{85}x",
    "x\u{200b}y",
    "a\r\r\nb",
    "no newline at end\r",
];

#[test]
fn whitespace_is_the_unicode_property() {
    let mut c = 0u32;
    while c <= 0x10ffff {
        if let Some(ch) = char::from_u32(c) {
            assert_eq!(is_space(ch), ch.is_whitespace(), "U+{:04X}", c);
        }
        c += 1;
    }
}

#[test]
fn chars_and_strings_round_trip() {
    for sample in SAMPLES {
        assert_eq!(to_chars(sample), chars(sample));
        assert_eq!(to_string(&chars(sample)), sample);
    }
    assert_eq!(to_chars("a\u{e9}\u{1f600}"), vec!['a', '\u{e9}', '\u{1f600}']);
    assert_eq!(to_string(&['h', 'i', '\u{1f600}']), "hi\u{1f600}");
}

#[test]
fn trimmed_agrees_with_trim() {
    for sample in SAMPLES {
        assert_eq!(text(trimmed(&chars(sample))), sample.trim());
    }
    assert_eq!(text(trimmed(&chars("  a  b  "))), "a  b");
    assert_eq!(text(trimmed(&chars(" \t\n"))), "");
}

#[test]
fn tokens_agree_with_split_whitespace() {
    for sample in SAMPLES {
        let all = chars(sample);
        let mut rest: &[char] = &all;
        let mut words = Vec::new();
        while let Some((word, after)) = token(rest) {
            words.push(text(word));
            rest = after;
        }
        let expected: Vec<String> = sample.split_whitespace().map(String::from).collect();
        assert_eq!(words, expected);
    }
}

#[test]
fn token_gives_the_word_and_what_follows() {
    let all = chars("  GET /a ");
    let (word, rest) = token(&all).unwrap();
    assert_eq!(text(word), "GET");
    assert_eq!(text(rest), " /a ");
    assert_eq!(token(&chars(" \t ")), None);
    assert_eq!(token(&chars("")), None);
}

#[test]
fn lines_agree_with_std_lines() {
    for sample in SAMPLES {
        let all = chars(sample);
        let mut rest: &[char] = &all;
        let mut lines = Vec::new();
        while !rest.is_empty() {
            let (first, after) = split_line(rest);
            lines.push(text(first));
            rest = after;
        }
        let expected: Vec<String> = sample.lines().map(String::from).collect();
        assert_eq!(lines, expected, "{:?}", sample);
    }
}

#[test]
fn line_strips_one_terminator() {
    let all = chars("a\r\nb\nc");
    let (first, rest) = split_line(&all);
    assert_eq!(text(first), "a");
    assert_eq!(text(rest), "b\nc");
    let all = chars("a\r\r\nb");
    let (first, rest) = split_line(&all);
    assert_eq!(text(first), "a\r");
    assert_eq!(text(rest), "b");
    let all = chars("last\r");
    let (first, rest) = split_line(&all);
    assert_eq!(text(first), "last\r");
    assert_eq!(text(rest), "");
}

#[test]
fn find_gives_first_index_or_length() {
    assert_eq!(find(&chars("a:b:c"), ':'), 1);
    assert_eq!(find(&chars(":"), ':'), 0);
    assert_eq!(find(&chars("abc"), ':'), 3);
    assert_eq!(find(&chars(""), ':'), 0);
}

#[test]
fn cut_agrees_with_split_once() {
    for sample in ["a=b", "=", "a=", "=b", "a=b=c", "abc", "", "\u{e9}=\u{e9}"] {
        let all = chars(sample);
        let got = cut(&all, '=').map(|(before, after)| (text(before), text(after)));
        let expected = sample.split_once('=').map(|(a, b)| (a.to_string(), b.to_string()));
        assert_eq!(got, expected);
    }
}

#[test]
fn contains_agrees_with_str_contains() {
    let patterns = ["", "a", "HTTP/", "TT", "/1.1", "1.1x", "GET / HTTP/1.1", "GET / HTTP/1.1 "];
    for sample in SAMPLES {
        for pattern in patterns {
            assert_eq!(
                contains(&chars(sample), &chars(pattern)),
                sample.contains(pattern),
                "{:?} in {:?}",
                pattern,
                sample
            );
        }
    }
    assert!(contains(&chars("aab"), &chars("ab")));
    assert!(!contains(&chars("aba"), &chars("bb")));
}

#[test]
fn spells_compares_letter_for_letter() {
    assert!(spells(&chars("GET"), "GET"));
    assert!(!spells(&chars("GET"), "GE"));
    assert!(!spells(&chars("GE"), "GET"));
    assert!(!spells(&chars("GEt"), "GET"));
    assert!(!spells(&chars(""), "GET"));
    assert!(!spells(&chars("GET"), ""));
    assert!(spells(&chars(""), ""));
    assert!(spells(&chars("\u{e9}\u{4e2d}"), "\u{e9}\u{4e2d}"));
}

#[test]
fn find_bytes_gives_first_occurrence() {
    assert_eq!(find_bytes(b"a\r\n\r\nb\r\n\r\n", b"\r\n\r\n"), Some(1));
    assert_eq!(find_bytes(b"\n\n", b"\n\n"), Some(0));
    assert_eq!(find_bytes(b"a\n\n\n", b"\n\n"), Some(1));
    assert_eq!(find_bytes(b"a\nb\n", b"\n\n"), None);
    assert_eq!(find_bytes(b"\n", b"\n\n"), None);
    assert_eq!(find_bytes(b"", b"\n\n"), None);
    assert_eq!(find_bytes(b"abc", b""), Some(0));
    assert_eq!(find_bytes(b"", b""), Some(0));
    assert_eq!(find_bytes(b"\r\n\r\r\n\r\n", b"\r\n\r\n"), Some(3));
}
