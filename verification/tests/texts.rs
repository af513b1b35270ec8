//! The tools for text, held against those of the standard library.
use cliphist_tui::text::{
    chars_of, contains, decimal, ends_with, find_char, find_line, hexadecimal, is_white_space,
    replace, same_text, starts_with, text_after_last, text_of, trim, trim_line_ends,
};

const SAMPLES: [&str; 12] = [
    "", "a", "/", "abcabc", " a b ", "\t\n", "x\r\n\r\n", "%2F%2f%%2F", "表情[表情]", "\u{3000}é\u{85}",
    "a.b.c", "aaa",
];

#[test]
fn searches_agree_with_the_standard_library() {
    for s in SAMPLES {
        let cs = chars_of(s);
        assert_eq!(cs, s.chars().collect::<Vec<char>>());
        for p in SAMPLES {
            assert_eq!(starts_with(&cs, p), s.starts_with(p));
            assert_eq!(ends_with(&cs, p), s.ends_with(p));
            assert_eq!(contains(&cs, p), s.contains(p));
            assert_eq!(same_text(s, p), s == p);
            if !p.is_empty() {
                assert_eq!(replace(s, p, "<>"), s.replace(p, "<>"));
            }
            let line = s.lines().find(|l| l.starts_with(p));
            assert_eq!(find_line(s, p).as_deref(), line);
        }
    }
}

#[test]
fn trims_agree_with_the_standard_library() {
    for s in SAMPLES {
        assert_eq!(trim(s), s.trim());
        assert_eq!(trim_line_ends(s), s.trim_end_matches(|c| c == '\n' || c == '\r'));
        assert_eq!(text_after_last(&chars_of(s), '.'), s.rsplit('.').next().unwrap());
    }
}

#[test]
fn white_space_agrees_with_the_standard_library_on_every_character() {
    for n in 0..=0x10FFFF_u32 {
        if let Some(c) = char::from_u32(n) {
            assert_eq!(is_white_space(c), c.is_whitespace());
        }
    }
}

#[test]
fn numerals_agree_with_the_standard_library() {
    for n in [0, 1, 9, 10, 15, 16, 255, 256, 1000, u64::MAX] {
        assert_eq!(decimal(n), n.to_string());
        assert_eq!(hexadecimal(n as u128), format!("{:x}", n));
    }
    assert_eq!(hexadecimal(u128::MAX), format!("{:x}", u128::MAX));
}

#[test]
fn characters_are_found_and_cut_out() {
    let cs = chars_of("aé\tb\t");
    assert_eq!(find_char(&cs, 0, '\t'), 2);
    assert_eq!(find_char(&cs, 3, '\t'), 4);
    assert_eq!(find_char(&cs, 0, 'z'), 5);
    assert_eq!(text_of(&cs, 1, 4), "é\tb");
}
