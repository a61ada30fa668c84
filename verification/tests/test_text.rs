use sac::text::{
    chars_of, decimal_text, find_infix, is_space, join_texts, replace_all, same_text, split_on,
    split_words, trim_chars,
};

#[test]
fn test_is_space_matches_std_whitespace() {
    for code in 0u32..0x3100 {
        if let Some(c) = char::from_u32(code) {
            assert_eq!(is_space(c), c.is_whitespace(), "char U+{:04X}", code);
        }
    }
    for code in [0xFEFFu32, 0x10FFFF, 0x1F600] {
        let c = char::from_u32(code).unwrap();
        assert_eq!(is_space(c), c.is_whitespace());
    }
}

#[test]
fn test_split_words_matches_split_whitespace() {
    for text in ["", "   ", "one", " two  words ", "a\tb\nc\u{3000}d", "列出 所有\u{00A0}pods"] {
        let chars: Vec<char> = text.chars().collect();
        let words: Vec<String> = split_words(&chars).iter().map(|w| w.iter().collect()).collect();
        let expected: Vec<String> = text.split_whitespace().map(|w| w.to_string()).collect();
        assert_eq!(words, expected, "text {:?}", text);
    }
}

#[test]
fn test_trim_matches_std_trim() {
    for text in ["", "  ", " a b ", "\u{3000}x\u{2003}", "tag"] {
        let chars: Vec<char> = text.chars().collect();
        let trimmed: String = trim_chars(&chars).iter().collect();
        assert_eq!(trimmed, text.trim());
    }
}

#[test]
fn test_split_on_matches_std_split() {
    for text in ["", "a", "a,b", ",a,,b,"] {
        let chars: Vec<char> = text.chars().collect();
        let parts: Vec<String> = split_on(&chars, ',').iter().map(|w| w.iter().collect()).collect();
        let expected: Vec<String> = text.split(',').map(|w| w.to_string()).collect();
        assert_eq!(parts, expected);
    }
}

#[test]
fn test_replace_all_matches_std_replace() {
    let cases = [("my tools box", " ", "_"), ("aaa", "aa", "b"), ("abc", "", "x"), ("xyz", "q", "r")];
    for (text, pat, rep) in cases {
        let got: String = replace_all(&chars_of(text), &chars_of(pat), &chars_of(rep)).iter().collect();
        if pat.is_empty() {
            assert_eq!(got, text);
        } else {
            assert_eq!(got, text.replace(pat, rep));
        }
    }
}

#[test]
fn test_find_infix() {
    assert!(find_infix(&chars_of("kubectl get pods"), &chars_of("get")));
    assert!(find_infix(&chars_of("abc"), &chars_of("")));
    assert!(!find_infix(&chars_of("ab"), &chars_of("abc")));
}

#[test]
fn test_join_and_strings() {
    let parts = vec!["a".to_string(), "b".to_string(), "c".to_string()];
    assert_eq!(join_texts(&parts, " > "), "a > b > c");
    assert_eq!(join_texts(&vec![], "/"), "");
    assert!(same_text("abc", "abc"));
    assert!(!same_text("abc", "abd"));
}

#[test]
fn test_decimal_text() {
    for n in [0usize, 7, 10, 42, 1000, 98765] {
        let s: String = decimal_text(n).iter().collect();
        assert_eq!(s, n.to_string());
    }
}
