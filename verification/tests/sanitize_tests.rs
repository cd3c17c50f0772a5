use anime_file_manager::sanitize::{
    is_control_char, is_edge_char, is_forbidden_char, is_whitespace_char, narrow_char,
    sanitize_filename,
};
use anime_file_manager::text::{chars_of, string_of, width_of};

#[test]
fn forbidden_characters_become_underscores() {
    assert_eq!(sanitize_filename("a<b>c:d"), "a_b_c_d");
    assert_eq!(sanitize_filename("q\"u|e?s*t"), "q_u_e_s_t");
}

#[test]
fn dots_and_spaces_give_the_placeholder() {
    assert_eq!(sanitize_filename(" . .. ."), "unnamed_file");
    assert_eq!(sanitize_filename("..."), "unnamed_file");
    assert_eq!(sanitize_filename("   "), "unnamed_file");
    assert_eq!(sanitize_filename(""), "unnamed_file");
    assert_eq!(sanitize_filename("\u{3000}\u{3002}"), "unnamed_file");
}

#[test]
fn long_ascii_name_is_cut_to_the_budget() {
    let name = "a".repeat(300);
    let clean = sanitize_filename(&name);
    assert_eq!(clean.len(), 200);
    assert_eq!(clean, "a".repeat(200));
}

#[test]
fn long_name_is_cut_between_characters() {
    // 300 characters of three bytes each: 66 of them fit in 200 bytes.
    let name = "\u{65E5}".repeat(300);
    let clean = sanitize_filename(&name);
    assert_eq!(clean.chars().count(), 66);
    assert_eq!(clean.len(), 198);
    assert_eq!(clean, "\u{65E5}".repeat(66));
    // One byte in front moves the cut: 1 + 66 * 3 = 199, and the next does not fit.
    let shifted = format!("x{}", name);
    let clean = sanitize_filename(&shifted);
    assert_eq!(clean.len(), 199);
    assert!(clean.len() <= 200);
    // Two-byte characters: exactly 100 fit.
    let clean = sanitize_filename(&"\u{00E9}".repeat(300));
    assert_eq!(clean.len(), 200);
    assert_eq!(clean.chars().count(), 100);
}

#[test]
fn name_within_the_budget_is_not_cut() {
    let name = "b".repeat(200);
    assert_eq!(sanitize_filename(&name), name);
    let name = "c".repeat(201);
    assert_eq!(sanitize_filename(&name), "c".repeat(200));
}

#[test]
fn wide_punctuation_becomes_narrow() {
    assert_eq!(sanitize_filename("a\u{2606}b"), "a\u{2605}b");
    assert_eq!(sanitize_filename("a\u{FF5E}b"), "a~b");
    assert_eq!(sanitize_filename("a\u{FF06}b"), "a&b");
    assert_eq!(sanitize_filename("a\u{FF01}b"), "a!b");
    assert_eq!(sanitize_filename("a\u{FF1B}b"), "a;b");
    assert_eq!(sanitize_filename("a\u{FF0C}b"), "a,b");
    assert_eq!(sanitize_filename("a\u{3002}b"), "a.b");
    assert_eq!(sanitize_filename("a\u{FF08}b\u{FF09}"), "a(b)");
    assert_eq!(sanitize_filename("\u{3010}a\u{3011}b"), "[a]b");
    assert_eq!(sanitize_filename("\u{FF5B}a\u{FF5D}"), "{a}");
    assert_eq!(sanitize_filename("a\u{3000}b"), "a b");
}

#[test]
fn wide_question_mark_and_colon_become_underscores() {
    // Narrowed first, they are forbidden like the plain signs.
    assert_eq!(sanitize_filename("a\u{FF1F}b"), "a_b");
    assert_eq!(sanitize_filename("a\u{FF1A}b"), "a_b");
    assert_eq!(sanitize_filename("Re\u{FF1A}Zero"), "Re_Zero");
    assert_eq!(sanitize_filename("Re:Zero"), "Re_Zero");
}

#[test]
fn control_characters_are_dropped() {
    assert_eq!(sanitize_filename("a\u{0}b\u{7}c\u{1F}d\u{7F}e\u{9F}f"), "abcdef");
    assert_eq!(sanitize_filename("a\tb\nc"), "abc");
    assert_eq!(sanitize_filename("\u{1}\u{2}"), "unnamed_file");
}

#[test]
fn white_space_and_dots_are_trimmed_at_both_ends() {
    assert_eq!(sanitize_filename("  .name.ext. "), "name.ext");
    assert_eq!(sanitize_filename(".hidden"), "hidden");
    assert_eq!(sanitize_filename("\u{A0}a b\u{2003}"), "a b");
    assert_eq!(sanitize_filename("a . b"), "a . b");
}

#[test]
fn trimming_comes_after_control_characters_are_dropped() {
    assert_eq!(sanitize_filename("\u{1} a \u{2}"), "a");
}

#[test]
fn sanitizing_twice_changes_nothing() {
    for name in [
        "a<b>c:d",
        "  plain name.mkv ",
        "...",
        "\u{3010}group\u{3011} Show - 01 \u{FF08}1080p\u{FF09}.mkv",
        "unnamed_file",
        "x",
        "a\u{FF1F}b",
        "Re\u{FF1A}Zero",
        "\u{3002}a\u{3002}",
    ] {
        let once = sanitize_filename(name);
        assert_eq!(sanitize_filename(&once), once);
    }
    let long = "\u{65E5}".repeat(300);
    let once = sanitize_filename(&long);
    assert_eq!(sanitize_filename(&once), once);
}

#[test]
fn a_name_cut_behind_white_space_or_a_dot_is_trimmed_again() {
    let name = format!("{} tail", "a".repeat(199));
    let once = sanitize_filename(&name);
    assert_eq!(once, "a".repeat(199));
    assert_eq!(sanitize_filename(&once), once);
    let name = format!("{}. . .tail", "a".repeat(197));
    assert_eq!(sanitize_filename(&name), "a".repeat(197));
    let name = format!("{}\u{3000}\u{3002}tail", "b".repeat(199));
    assert_eq!(sanitize_filename(&name), "b".repeat(199));
}

#[test]
fn white_space_is_what_the_standard_library_calls_white_space() {
    for code in 0..=0x10FFFFu32 {
        if let Some(c) = char::from_u32(code) {
            assert_eq!(is_whitespace_char(c), c.is_whitespace(), "U+{:04X}", code);
        }
    }
}

#[test]
fn control_is_what_the_standard_library_calls_control() {
    for code in 0..=0x10FFFFu32 {
        if let Some(c) = char::from_u32(code) {
            assert_eq!(is_control_char(c), c.is_control(), "U+{:04X}", code);
        }
    }
}

#[test]
fn width_is_the_length_in_utf8() {
    for code in 0..=0x10FFFFu32 {
        if let Some(c) = char::from_u32(code) {
            assert_eq!(width_of(c), c.len_utf8(), "U+{:04X}", code);
        }
    }
}

#[test]
fn character_classes() {
    for c in ['<', '>', ':', '"', '|', '?', '*'] {
        assert!(is_forbidden_char(c));
    }
    for c in ['/', '\\', 'a', '_', '.', ' '] {
        assert!(!is_forbidden_char(c));
    }
    assert!(is_edge_char('.'));
    assert!(is_edge_char(' '));
    assert!(!is_edge_char('_'));
    assert_eq!(narrow_char('\u{FF1F}'), '?');
    assert_eq!(narrow_char('x'), 'x');
}

#[test]
fn strings_and_characters_convert_both_ways() {
    let text = "a\u{65E5}\u{1F600}z";
    let chars = chars_of(text);
    assert_eq!(chars, vec!['a', '\u{65E5}', '\u{1F600}', 'z']);
    assert_eq!(string_of(&chars), text);
    assert_eq!(string_of(&Vec::new()), "");
}

fn sample(seed: &mut u64, alphabet: &[char], max_len: u64) -> String {
    let mut next = || {
        *seed = seed.wrapping_mul(6364136223846793005).wrapping_add(1442695040888963407);
        *seed >> 33
    };
    let len = next() % (max_len + 1);
    let mut text = String::new();
    for _ in 0..len {
        text.push(alphabet[(next() % alphabet.len() as u64) as usize]);
    }
    text
}

#[test]
fn a_second_pass_never_changes_anything() {
    let alphabet = [
        'a', 'b', ' ', '.', '_', '?', ':', '<', '*', '\u{FF1F}', '\u{FF1A}', '\u{3002}',
        '\u{3000}', '\u{2606}', '\u{7}', '\u{65E5}', '\u{1F600}', '"', '/', '\\', '\u{A0}',
    ];
    let mut seed: u64 = 2024;
    for round in 0..4000 {
        let max_len = if round % 10 == 0 { 260 } else { 12 };
        let name = sample(&mut seed, &alphabet, max_len);
        let once = sanitize_filename(&name);
        let twice = sanitize_filename(&once);
        assert_eq!(twice, once, "{:?} -> {:?} -> {:?}", name, once, twice);
        // What holds of every result.
        assert!(!once.is_empty());
        assert!(once.len() <= 200);
        assert!(once.chars().count() <= 200);
        assert!(!is_edge_char(once.chars().next().unwrap()));
        assert!(!is_edge_char(once.chars().last().unwrap()));
        assert!(once.chars().all(|c| !is_control_char(c) && !is_forbidden_char(c)));
    }
}
