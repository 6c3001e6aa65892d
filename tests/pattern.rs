use interesting_rust_codes::pattern::{binary_chars, match_pattern, match_pattern_str};

fn binary(w: u32) -> String {
    binary_chars(w).into_iter().collect()
}

#[test]
fn binary_rendering() {
    assert_eq!(binary(0), "0".repeat(32));
    assert_eq!(binary(0x8000_0001), format!("1{}1", "0".repeat(30)));
    assert_eq!(binary(0x0040_0093), "00000000010000000000000010010011");
}

#[test]
fn word_matches_its_own_binary() {
    for &w in [0u32, 1, 0xFFFF_FFFF, 0x0040_0093, 0xDEAD_BEEF].iter() {
        assert!(match_pattern(w, &binary(w)));
    }
}

#[test]
fn wildcards_match_agreeing_words() {
    let w = 0x0040_0093u32;
    let exact = binary(w);
    // wildcard the top 12 bits (the immediate)
    let pattern: String = exact
        .chars()
        .enumerate()
        .map(|(i, c)| if i < 12 { '?' } else { c })
        .collect();
    assert!(match_pattern(w, &pattern));
    assert!(match_pattern(0xFFF0_0093, &pattern));
    assert!(match_pattern(0x1230_0093, &pattern));
    assert!(!match_pattern(0x0040_0094, &pattern));
    assert!(!match_pattern(0x0040_8093, &pattern));
}

#[test]
fn spaces_are_ignored() {
    assert!(match_pattern(0x0040_0093, "0000000 00100 00000 000 00001 00100 11"));
    assert!(match_pattern(0x0040_0093, "??????? ????? ????? 000 ????? 00100 11"));
    assert!(!match_pattern(0x0010_8233, "??????? ????? ????? 000 ????? 00100 11"));
}

#[test]
fn wrong_length_matches_nothing() {
    assert!(!match_pattern(0, &"0".repeat(31)));
    assert!(!match_pattern(0, &"?".repeat(33)));
    assert!(!match_pattern(0, ""));
}

#[test]
fn text_patterns() {
    assert!(match_pattern_str("0101", "01 ?1"));
    assert!(match_pattern_str("abc", "a?c"));
    assert!(!match_pattern_str("abc", "a?d"));
    assert!(!match_pattern_str("abc", "ab"));
    assert!(match_pattern_str("", "  "));
}
