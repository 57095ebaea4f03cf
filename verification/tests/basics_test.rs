use wifichecker::order::is_higher;
use wifichecker::order::order_descending;
use wifichecker::order::Level;
use wifichecker::text;
use wifichecker::text_map::TextMap;

#[test]
fn numbers_as_text() {
    assert_eq!(text::dec_text(0), "0");
    assert_eq!(text::dec_text(u64::MAX), "18446744073709551615");
    assert_eq!(text::int_text(-90), "-90");
    assert_eq!(text::int_text(i64::MIN), "-9223372036854775808");
    let mut s = String::new();
    text::push_hex(&mut s, 0xab, 4);
    assert_eq!(s, "00ab");
    text::push_hex(&mut s, 0x12345, 4);
    assert_eq!(s, "00ab12345");
}

#[test]
fn white_space_is_trimmed() {
    assert_eq!(text::trim("  a b\u{2003}\n"), "a b");
    assert_eq!(text::trim("ab"), "ab");
    assert_eq!(text::trim(" \t\u{3000}"), "");
    // Each character that is white space, and its neighbours that are not.
    let white: Vec<u32> = (0..0x11_0000u32)
        .filter(|u| char::from_u32(*u).is_some_and(|c| text::trim(&c.to_string()).is_empty()))
        .collect();
    let mut expected: Vec<u32> = (0x9..=0xd).collect();
    expected.extend([0x20, 0x85, 0xa0, 0x1680]);
    expected.extend(0x2000..=0x200a);
    expected.extend([0x2028, 0x2029, 0x202f, 0x205f, 0x3000]);
    assert_eq!(white, expected);
    // A zero-width space is no white space.
    assert_eq!(text::trim("\u{200b}a"), "\u{200b}a");
}

#[test]
fn padding() {
    let mut s = String::new();
    text::push_padded_left(&mut s, "-5", 5, " ");
    text::push_padded_right(&mut s, "ab", 4, " ");
    text::push_padded_right(&mut s, "abcdef", 4, " ");
    assert_eq!(s, "   -5ab  abcdef");
}

#[test]
fn texts_are_ordered_by_character() {
    assert!(text::is_less("a", "b"));
    assert!(text::is_less("a", "aa"));
    assert!(!text::is_less("b", "aa"));
    assert!(!text::is_less("a", "a"));
}

#[test]
fn truncating_counts_characters() {
    assert_eq!(text::truncate("äöüß", 4), "äöüß");
    assert_eq!(text::truncate("äöüßx", 4), "äöü…");
}

#[test]
fn levels_compare_as_means() {
    let a = Level { sum: -130, count: 2 };
    let b = Level { sum: -66, count: 1 };
    assert!(is_higher(a, b));
    assert!(!is_higher(b, a));
    let order = order_descending(&vec![b, a, b]);
    assert_eq!(order, vec![1, 0, 2]);
}

#[test]
fn text_maps_hold_one_value_per_key() {
    let mut m: TextMap<u32> = TextMap::new();
    assert!(m.is_empty());
    m.insert("a".to_string(), 1);
    m.insert("b".to_string(), 2);
    m.insert("a".to_string(), 3);
    assert_eq!(m.len(), 2);
    assert_eq!(m.get("a"), Some(&3));
    assert!(m.contains_key("b"));
    m.remove("a");
    m.remove("missing");
    assert_eq!(m.get("a"), None);
    assert_eq!(m.len(), 1);
    let copy = m.clone();
    assert_eq!(copy.get("b"), Some(&2));
}
