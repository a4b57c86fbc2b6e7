use cargo_vanish::text::{
    chars_of, decimal_width, push_aligned_decimal, push_decimal, text_before, text_eq, trim,
    trim_bounds,
};

#[test]
fn texts_are_ordered_character_by_character() {
    assert!(text_before("a", "b"));
    assert!(!text_before("b", "a"));
    assert!(text_before("", "a"));
    assert!(!text_before("a", ""));
    assert!(!text_before("", ""));
    assert!(text_before("a", "ab"));
    assert!(!text_before("ab", "a"));
    assert!(!text_before("abc", "abc"));
    assert!(text_before("a-b", "a/b"));
    assert!(text_before("Z", "a"));
    assert!(text_before("z", "é"));
}

#[test]
fn text_order_agrees_with_the_order_of_strings() {
    let samples = ["", "a", "a/b", "a-b", "ab", "b", "é", "日本", "a/Cargo.toml", "a/b/Cargo.toml"];
    for x in samples {
        for y in samples {
            assert_eq!(text_before(x, y), x < y, "{x:?} {y:?}");
        }
    }
}

#[test]
fn texts_are_equal_when_their_characters_are() {
    assert!(text_eq("", ""));
    assert!(text_eq("Cargo.toml", "Cargo.toml"));
    assert!(!text_eq("Cargo.toml", "Cargo.tom"));
    assert!(!text_eq("Cargo.tom", "Cargo.toml"));
    assert!(!text_eq("a", "b"));
    assert!(text_eq("é", "é"));
}

#[test]
fn characters_come_out_in_order() {
    assert_eq!(chars_of("aé/"), vec!['a', 'é', '/']);
    assert_eq!(chars_of(""), Vec::<char>::new());
}

#[test]
fn decimal_numerals_have_no_leading_zero() {
    let mut out = String::new();
    push_decimal(&mut out, 0);
    out.push(' ');
    push_decimal(&mut out, 7);
    out.push(' ');
    push_decimal(&mut out, 10);
    out.push(' ');
    push_decimal(&mut out, 1234567890);
    out.push(' ');
    push_decimal(&mut out, u128::MAX);
    assert_eq!(out, "0 7 10 1234567890 340282366920938463463374607431768211455");
}

#[test]
fn decimal_width_counts_digits() {
    assert_eq!(decimal_width(0), 1);
    assert_eq!(decimal_width(9), 1);
    assert_eq!(decimal_width(10), 2);
    assert_eq!(decimal_width(999), 3);
    assert_eq!(decimal_width(1000), 4);
    assert_eq!(decimal_width(u128::MAX), 39);
}

#[test]
fn numbers_are_aligned_to_the_right() {
    let mut out = String::new();
    push_aligned_decimal(&mut out, 5, 3);
    out.push('|');
    push_aligned_decimal(&mut out, 1234, 3);
    out.push('|');
    push_aligned_decimal(&mut out, 12, 0);
    assert_eq!(out, "  5|1234|12");
}

#[test]
fn trimming_drops_white_space_at_the_two_ends_only() {
    assert_eq!(trim("  a b  "), "a b");
    assert_eq!(trim("\t\u{3000}x\u{2003}\r\n"), "x");
    assert_eq!(trim("   "), "");
    assert_eq!(trim(""), "");
    assert_eq!(trim("\x1B[0;31m  1 GB\x1B[0m"), "\x1B[0;31m  1 GB\x1B[0m");
    assert_eq!(trim_bounds(&vec![' ', 'a', ' ', 'b', ' ']), (1, 4));
    assert_eq!(trim_bounds(&vec![' ', ' ']), (2, 2));
}

#[test]
fn trimming_agrees_with_the_trimming_of_strings() {
    for s in ["", " ", "a", " a", "a ", "\u{00A0}a\u{0085}", "\u{200B}a", "a\u{FEFF}", "\n\n", " é "] {
        assert_eq!(trim(s), s.trim(), "{s:?}");
    }
}
