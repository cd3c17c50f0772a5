use anime_file_manager::text::{
    byte_length, chars_of, contains_chars, decimal_chars, decimal_padded_chars, exceeds_bytes,
    has_at, octal_chars, parse_u32, replace_all, replace_char, same_chars, slice_chars,
    string_of, truncate_to_bytes,
};

fn replace(text: &str, pattern: &str, with: &str) -> String {
    string_of(&replace_all(&chars_of(text), &chars_of(pattern), &chars_of(with)))
}

fn parse(text: &str) -> Option<u32> {
    parse_u32(&chars_of(text))
}

#[test]
fn decimal_numerals() {
    assert_eq!(string_of(&decimal_chars(0)), "0");
    assert_eq!(string_of(&decimal_chars(7)), "7");
    assert_eq!(string_of(&decimal_chars(10)), "10");
    assert_eq!(string_of(&decimal_chars(4294967295)), "4294967295");
    assert_eq!(string_of(&decimal_chars(u128::MAX)), u128::MAX.to_string());
}

#[test]
fn padded_numerals() {
    assert_eq!(string_of(&decimal_padded_chars(2, 2)), "02");
    assert_eq!(string_of(&decimal_padded_chars(2, 3)), "002");
    assert_eq!(string_of(&decimal_padded_chars(12, 2)), "12");
    assert_eq!(string_of(&decimal_padded_chars(123, 2)), "123");
    assert_eq!(string_of(&decimal_padded_chars(0, 0)), "0");
    for n in [0u32, 5, 9, 10, 99, 100, 999, 1000, 65535] {
        assert_eq!(string_of(&decimal_padded_chars(n as u128, 2)), format!("{:02}", n));
        assert_eq!(string_of(&decimal_padded_chars(n as u128, 3)), format!("{:03}", n));
    }
}

#[test]
fn octal_numerals() {
    assert_eq!(string_of(&octal_chars(0)), "0");
    assert_eq!(string_of(&octal_chars(8)), "10");
    assert_eq!(string_of(&octal_chars(0o100644)), "100644");
    for n in [1u32, 7, 63, 64, 0o755, 0o40755, u32::MAX] {
        assert_eq!(string_of(&octal_chars(n as u128)), format!("{:o}", n));
    }
}

#[test]
fn numbers_are_read_as_the_standard_library_reads_them() {
    for text in [
        "0", "1", "007", "42", "4294967295", "4294967296", "99999999999", "", "+", "+5", "-5",
        " 5", "5 ", "1a", "a1", "\u{0663}", "1\u{0663}", "++5", "5+", "00000000000000000001",
    ] {
        assert_eq!(parse(text), text.parse::<u32>().ok(), "{:?}", text);
    }
    assert_eq!(parse("42"), Some(42));
    assert_eq!(parse("4294967296"), None);
}

#[test]
fn replacing_goes_from_the_left_without_overlap() {
    assert_eq!(replace("aaa", "aa", "b"), "ba");
    assert_eq!(replace("abcabc", "bc", "-"), "a-a-");
    assert_eq!(replace("abc", "x", "y"), "abc");
    assert_eq!(replace("", "x", "y"), "");
    assert_eq!(replace("xxx", "x", ""), "");
    assert_eq!(replace("{season} {season:02}", "{season}", "2"), "2 {season:02}");
    for (text, pattern, with) in [
        ("hello world", "o", "0"),
        ("aaaa", "aa", "a"),
        ("abab", "ab", "abab"),
        ("\u{65E5}x\u{65E5}", "\u{65E5}", "day"),
        ("a.b.c", ".", ".."),
    ] {
        assert_eq!(replace(text, pattern, with), text.replace(pattern, with));
    }
}

#[test]
fn empty_pattern_occurs_nowhere() {
    assert_eq!(replace("abc", "", "-"), "abc");
}

#[test]
fn single_characters_are_replaced() {
    assert_eq!(string_of(&replace_char(&chars_of("a\\b\\c"), '\\', '/')), "a/b/c");
    assert_eq!(string_of(&replace_char(&chars_of("abc"), 'x', 'y')), "abc");
}

#[test]
fn searching_a_text() {
    let text = chars_of("hello");
    assert!(has_at(&text, &chars_of("ell"), 1));
    assert!(!has_at(&text, &chars_of("ell"), 0));
    assert!(!has_at(&text, &chars_of("lo"), 4));
    assert!(has_at(&text, &chars_of(""), 5));
    assert!(!has_at(&text, &chars_of(""), 6));
    assert!(contains_chars(&text, &chars_of("lo")));
    assert!(contains_chars(&text, &chars_of("")));
    assert!(!contains_chars(&text, &chars_of("lol")));
    assert!(contains_chars(&chars_of(""), &chars_of("")));
    assert!(!contains_chars(&chars_of(""), &chars_of("a")));
}

#[test]
fn comparing_and_slicing() {
    assert!(same_chars(&chars_of("abc"), &chars_of("abc")));
    assert!(!same_chars(&chars_of("abc"), &chars_of("abd")));
    assert!(!same_chars(&chars_of("abc"), &chars_of("ab")));
    assert_eq!(string_of(&slice_chars(&chars_of("hello"), 1, 3)), "el");
    assert_eq!(string_of(&slice_chars(&chars_of("hello"), 5, 5)), "");
}

#[test]
fn byte_lengths() {
    for text in ["", "abc", "\u{E9}", "\u{65E5}\u{672C}", "a\u{1F600}b"] {
        assert_eq!(byte_length(&chars_of(text)), text.len() as u128);
        assert!(!exceeds_bytes(&chars_of(text), text.len()));
        if text.len() > 0 {
            assert!(exceeds_bytes(&chars_of(text), text.len() - 1));
        }
    }
}

#[test]
fn cutting_to_bytes_keeps_whole_characters() {
    let mut text = chars_of("a\u{65E5}b");
    truncate_to_bytes(&mut text, 3);
    assert_eq!(string_of(&text), "a");
    let mut text = chars_of("a\u{65E5}b");
    truncate_to_bytes(&mut text, 4);
    assert_eq!(string_of(&text), "a\u{65E5}");
    let mut text = chars_of("a\u{65E5}b");
    truncate_to_bytes(&mut text, 0);
    assert_eq!(string_of(&text), "");
    let mut text = chars_of("a\u{65E5}b");
    truncate_to_bytes(&mut text, 100);
    assert_eq!(string_of(&text), "a\u{65E5}b");
}

fn sample(seed: &mut u64, alphabet: &[char], max_len: u64) -> String {
    let mut next = || {
        *seed = seed.wrapping_mul(6364136223846793005).wrapping_add(1442695040888963407);
        *seed >> 33
    };
    let len = next() % (max_len + 1);
    let mut text = String::new();
    for _ in 0..len {
        text.push(alphabet[(next() % alphabet.len() as u64) as usize]);
    }
    text
}

#[test]
fn replacing_agrees_with_the_standard_library_on_patterns_that_are_not_empty() {
    let alphabet = ['a', 'b', '{', '}', '\u{65E5}'];
    let mut seed: u64 = 11;
    for _ in 0..3000 {
        let text = sample(&mut seed, &alphabet, 12);
        let mut pattern = sample(&mut seed, &alphabet, 3);
        if pattern.is_empty() {
            pattern.push('a');
        }
        let with = sample(&mut seed, &alphabet, 3);
        assert_eq!(
            replace(&text, &pattern, &with),
            text.replace(pattern.as_str(), &with),
            "{:?} {:?} {:?}",
            text,
            pattern,
            with
        );
    }
}

#[test]
fn reading_numbers_agrees_with_the_standard_library() {
    let alphabet = ['0', '1', '4', '9', '+', '-', ' ', 'x'];
    let mut seed: u64 = 5;
    for _ in 0..3000 {
        let text = sample(&mut seed, &alphabet, 12);
        assert_eq!(parse(&text), text.parse::<u32>().ok(), "{:?}", text);
    }
}

#[test]
fn searching_agrees_with_the_standard_library() {
    let alphabet = ['a', 'b', 'c'];
    let mut seed: u64 = 3;
    for _ in 0..3000 {
        let text = sample(&mut seed, &alphabet, 8);
        let pattern = sample(&mut seed, &alphabet, 3);
        assert_eq!(
            contains_chars(&chars_of(&text), &chars_of(&pattern)),
            text.contains(pattern.as_str()),
            "{:?} {:?}",
            text,
            pattern
        );
    }
}
