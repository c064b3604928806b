use caliptra_spdm::text::{
    contains, ends_with, find, is_whitespace, lines, parse_u32, push_decimal, same, split,
    split_once, starts_with, strip_prefix, trim, trim_end, trim_start,
};

fn chars(s: &str) -> Vec<char> {
    s.chars().collect()
}

fn text(s: &[char]) -> String {
    s.iter().collect()
}

#[test]
fn whitespace_is_that_of_std() {
    for c in '\0'..=char::MAX {
        assert_eq!(is_whitespace(c), c.is_whitespace(), "{c:?}");
    }
}

const SAMPLES: [&str; 12] = [
    "",
    " ",
    "a",
    "\n",
    "\r\n",
    "a\nb",
    "a\r\nb\r\n",
    "a\r\r\n\n\rb\r",
    "  x y \u{2003}",
    "\u{85}z\u{a0}",
    "a,b,,c,",
    "aab aab",
];

#[test]
fn trimming_is_that_of_std() {
    for s in SAMPLES {
        let c = chars(s);
        assert_eq!(text(trim_start(&c)), s.trim_start());
        assert_eq!(text(trim_end(&c)), s.trim_end());
        assert_eq!(text(trim(&c)), s.trim());
    }
}

#[test]
fn lines_and_pieces_are_those_of_std() {
    for s in SAMPLES {
        let c = chars(s);
        let found: Vec<String> = lines(&c).iter().map(|l| text(l)).collect();
        assert_eq!(found, s.lines().collect::<Vec<_>>());
        for separator in [',', '\n', 'a'] {
            let found: Vec<String> = split(&c, separator).iter().map(|l| text(l)).collect();
            assert_eq!(found, s.split(separator).collect::<Vec<_>>());
            assert_eq!(found.join(&separator.to_string()), s);
        }
    }
}

#[test]
fn searching_is_that_of_std() {
    for s in SAMPLES {
        let c = chars(s);
        for p in ["a", "ab", "aab aab!", "b a", "\n", "", "y \u{2003}"] {
            let q = chars(p);
            assert_eq!(starts_with(&c, &q), s.starts_with(p));
            assert_eq!(ends_with(&c, &q), s.ends_with(p));
            assert_eq!(contains(&c, &q), s.contains(p));
            assert_eq!(find(&c, &q).is_some(), s.contains(p));
            assert_eq!(strip_prefix(&c, &q).map(text), s.strip_prefix(p).map(String::from));
            assert_eq!(
                split_once(&c, &q).map(|(a, b)| (text(a), text(b))),
                s.split_once(p).map(|(a, b)| (a.to_string(), b.to_string()))
            );
            assert_eq!(same(&c, &q), s == p);
        }
    }
    assert_eq!(find(&chars("aab aab"), &chars("ab")), Some(1));
}

#[test]
fn numbers_are_read_as_std_reads_them() {
    for s in [
        "0", "7", "007", "+5", "+", "", "-1", "1 ", " 1", "1a", "4294967295", "4294967296",
        "99999999999999999999999", "++1", "+-1", "\u{661}",
    ] {
        assert_eq!(parse_u32(&chars(s)), s.parse::<u32>().ok(), "{s:?}");
    }
}

#[test]
fn decimal_digits_are_those_of_std() {
    for n in [0u64, 1, 9, 10, 99, 100, 65535, 4294967295, u64::MAX] {
        let mut s = "n=".to_string();
        push_decimal(&mut s, n);
        assert_eq!(s, format!("n={n}"));
    }
}
