use searxkcd::text::{chars_of, find, render_decimal, split_words};

fn chars(s: &str) -> Vec<char> {
    s.chars().collect()
}

#[test]
fn chars_of_copies_every_character() {
    assert_eq!(chars_of("héllo ✓"), vec!['h', 'é', 'l', 'l', 'o', ' ', '✓']);
    assert_eq!(chars_of(""), Vec::<char>::new());
}

#[test]
fn decimal_of_small_numbers() {
    assert_eq!(render_decimal(0), "0");
    assert_eq!(render_decimal(7), "7");
    assert_eq!(render_decimal(9), "9");
    assert_eq!(render_decimal(10), "10");
    assert_eq!(render_decimal(404), "404");
    assert_eq!(render_decimal(1234567890), "1234567890");
}

#[test]
fn decimal_of_the_largest_number() {
    assert_eq!(render_decimal(u64::MAX), "18446744073709551615");
    assert_eq!(render_decimal(u64::MAX), u64::MAX.to_string());
}

#[test]
fn decimal_agrees_with_std() {
    let mut n: u64 = 1;
    for _ in 0..19 {
        assert_eq!(render_decimal(n), n.to_string());
        assert_eq!(render_decimal(n - 1), (n - 1).to_string());
        assert_eq!(render_decimal(n + 1), (n + 1).to_string());
        n *= 10;
    }
}

#[test]
fn find_gives_the_leftmost_place() {
    assert_eq!(find(&chars("abcabc"), &chars("bc")), Some(1));
    assert_eq!(find(&chars("abcabc"), &chars("abc")), Some(0));
    assert_eq!(find(&chars("aaab"), &chars("ab")), Some(2));
    assert_eq!(find(&chars("abc"), &chars("c")), Some(2));
}

#[test]
fn find_reports_absence() {
    assert_eq!(find(&chars("abcabc"), &chars("cb")), None);
    assert_eq!(find(&chars("ab"), &chars("abc")), None);
    assert_eq!(find(&chars(""), &chars("a")), None);
}

#[test]
fn find_of_the_empty_text_is_at_the_start() {
    assert_eq!(find(&chars("abc"), &chars("")), Some(0));
    assert_eq!(find(&chars(""), &chars("")), Some(0));
}

#[test]
fn find_counts_characters_not_bytes() {
    assert_eq!(find(&chars("ééé✓x"), &chars("✓")), Some(3));
    assert_eq!("ééé✓x".find('✓'), Some(6));
}

#[test]
fn find_agrees_with_std_on_plain_text() {
    let hay = "the quick brown fox jumps over the lazy dog";
    for needle in ["the", "fox", "dog", "cat", "o", " ", "lazy dog", "lazy dog!"] {
        assert_eq!(find(&chars(hay), &chars(needle)), hay.find(needle));
    }
}

#[test]
fn words_are_split_at_white_space() {
    assert_eq!(split_words("cat infinite"), vec!["cat".to_string(), "infinite".to_string()]);
    assert_eq!(split_words("  a\tb\n"), vec!["a".to_string(), "b".to_string()]);
    assert_eq!(split_words("one"), vec!["one".to_string()]);
}

#[test]
fn text_without_words() {
    assert_eq!(split_words(""), Vec::<String>::new());
    assert_eq!(split_words(" \t\r\n "), Vec::<String>::new());
}

#[test]
fn words_agree_with_std() {
    for text in ["", " ", "a", " a", "a ", "a  b", "\u{3000}wide\u{2003}space\u{a0}", "x\u{200b}y z", "é ✓  ü"] {
        let expected: Vec<String> = text.split_whitespace().map(|w| w.to_string()).collect();
        assert_eq!(split_words(text), expected);
    }
}
