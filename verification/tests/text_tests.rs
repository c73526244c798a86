use dnsglobe::input::{length, split_at, word_left, word_right};
use dnsglobe::order::{list_less, text_less};
use dnsglobe::scan::{
    after_last, all_in, contains, first_two_words, halves, parse_byte, split, strip_prefix,
    trimmed, without_end, Class,
};
use dnsglobe::text::{
    chars_of, decimal_string, fitting_string, joined_string, lowercase, pad_left_string,
    pad_right_string, same_list, two_digits_string, whole_string,
};

fn chars(s: &str) -> Vec<char> {
    s.chars().collect()
}

fn words(list: &[&str]) -> Vec<String> {
    list.iter().map(|s| s.to_string()).collect()
}

#[test]
fn numbers_are_written_in_decimal() {
    for n in [0, 7, 10, 99, 100, 65_535, u64::MAX] {
        assert_eq!(decimal_string(n), n.to_string());
        assert_eq!(two_digits_string(n), format!("{n:02}"));
    }
}

#[test]
fn padding_counts_characters() {
    assert_eq!(pad_right_string("→YUL", 8), format!("{:<8}", "→YUL"));
    assert_eq!(pad_left_string("12", 5), format!("{:>5}", "12"));
    assert_eq!(pad_left_string("123456", 5), "123456");
    assert_eq!(joined_string(&words(&["a", "b", "c"]), ", "), "a, b, c");
    assert_eq!(joined_string(&words(&[]), ", "), "");
}

#[test]
fn cutting_respects_characters() {
    assert_eq!(fitting_string("aéz", 2), "a");
    assert_eq!(fitting_string("aéz", 3), "aé");
    assert_eq!(fitting_string("😀x", 3), "");
    assert_eq!(fitting_string("abc", 9), "abc");
}

#[test]
fn white_space_is_that_of_unicode() {
    for c in (0..=0x10ffffu32).filter_map(char::from_u32) {
        assert_eq!(Class::Space.has(c), c.is_whitespace(), "{c:?}");
        assert_eq!(Class::Digit.has(c), c.is_ascii_digit());
        assert_eq!(Class::Letter.has(c), c.is_ascii_alphabetic());
        assert_eq!(Class::Alphanumeric.has(c), c.is_ascii_alphanumeric());
    }
}

#[test]
fn trimming_and_splitting() {
    for s in ["", " ", "a", "  a b\t", "\u{3000}x\u{85}", "a  b"] {
        assert_eq!(whole_string(&trimmed(s)), s.trim());
        let mut words = s.split_whitespace();
        let two = match (words.next(), words.next()) {
            (Some(a), Some(b)) => Some((a.to_string(), b.to_string())),
            _ => None,
        };
        assert_eq!(first_two_words(s), two);
    }
    for s in ["", ".", "a.b", "a..b", ".a."] {
        let pieces: Vec<String> =
            split(&chars(s), Class::Only('.')).iter().map(|p| whole_string(p)).collect();
        let wanted: Vec<&str> = s.split('.').collect();
        assert_eq!(pieces, wanted);
        let once = s.split_once('.').map(|(a, b)| (a.to_string(), b.to_string()));
        assert_eq!(halves(s, '.'), once);
    }
    assert_eq!(whole_string(&without_end(&chars("ab12"), Class::Digit)), "ab");
}

#[test]
fn finding_parts() {
    for s in ["", " - ", "a - b - c", "a -- b", "x - - y"] {
        let tail = whole_string(&after_last(&chars(s), " - "));
        assert_eq!(tail, s.rsplit(" - ").next().unwrap());
        assert_eq!(contains(&chars(s), " - "), s.contains(" - "));
    }
    assert!(contains(&chars("abc"), ""));
    assert_eq!(strip_prefix(&chars("server x"), "server ").map(|v| whole_string(&v)), Some("x".into()));
    assert_eq!(strip_prefix(&chars("serve"), "server "), None);
    assert!(all_in(&chars("a1"), Class::Alphanumeric));
    assert!(!all_in(&chars("a-1"), Class::Alphanumeric));
    assert_eq!(whole_string(&lowercase("ÄBc")), "Äbc");
    assert_eq!(chars_of("aé"), vec!['a', 'é']);
}

#[test]
fn bytes_are_read_as_the_standard_library_does() {
    for s in ["", "+", "0", "7", "255", "256", "+12", "-1", "-0", "007", "1e1", "99999999", "٣"] {
        assert_eq!(parse_byte(s), s.parse::<u8>().ok(), "{s}");
    }
}

#[test]
fn texts_are_ordered_as_strings_are() {
    let list = ["", "a", "ab", "b", "B", "é", "z", "😀"];
    for a in list {
        for b in list {
            assert_eq!(text_less(a, b), a < b, "{a} {b}");
            let (x, y) = (words(&[a, b]), words(&[b]));
            assert_eq!(list_less(&x, &y), x < y);
            assert_eq!(same_list(&x, &y), x == y);
        }
    }
}

#[test]
fn lines_are_split_by_bytes() {
    assert_eq!(length("aé"), 3);
    assert_eq!(split_at("aéz", 3), ("aé".to_string(), "z".to_string()));
    assert_eq!(word_left("é.x", 4), 3);
    assert_eq!(word_left("é.x", 3), 0);
    assert_eq!(word_right("é.x", 0), 2);
    assert_eq!(word_right("a.b", 7), 7);
}
