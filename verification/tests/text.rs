use io_thread_controller::order::{precedes, sorted_texts, stable_order};
use io_thread_controller::text::{
    contains_text, decimal_text, same, same_texts, split_lines, split_words, trim, unsigned,
    IntFault,
};

fn strings(words: &[&str]) -> Vec<String> {
    words.iter().map(|w| w.to_string()).collect()
}

#[test]
fn numbers_are_written_in_decimal() {
    assert_eq!(decimal_text(0), "0");
    assert_eq!(decimal_text(1024), "1024");
    assert_eq!(decimal_text(u128::MAX), u128::MAX.to_string());
}

#[test]
fn numbers_read_back() {
    for n in [0u64, 9, 10, 65_535, u64::MAX] {
        assert_eq!(unsigned(&decimal_text(n as u128), u64::MAX), Ok(n));
    }
    assert_eq!(unsigned("+7", 100), Ok(7));
    assert_eq!(unsigned("007", 100), Ok(7));
    assert_eq!(unsigned("", 100), Err(IntFault::Empty));
    assert_eq!(unsigned("+", 100), Err(IntFault::InvalidDigit));
    assert_eq!(unsigned("1x", 100), Err(IntFault::InvalidDigit));
    assert_eq!(unsigned("101", 100), Err(IntFault::Overflow));
}

#[test]
fn texts_are_split_as_std_splits_them() {
    for text in ["", "a", " a  b\tc\n", "\u{a0}x\u{2003}y", "\u{3000}", "a\u{85}b"] {
        let expected: Vec<String> = text.split_whitespace().map(|w| w.to_string()).collect();
        assert_eq!(split_words(text), expected);
        assert_eq!(trim(text), text.trim());
    }
    for text in ["", "a", "a\n", "a\r\nb", "\n\n", "a\rb\n", "a\r"] {
        let expected: Vec<String> = text.lines().map(|l| l.to_string()).collect();
        assert_eq!(split_lines(text), expected);
    }
}

#[test]
fn substrings_are_found() {
    assert!(contains_text("1615a59c-dc4a", "59c"));
    assert!(contains_text("abc", ""));
    assert!(!contains_text("abc", "abcd"));
    assert!(!contains_text("", "a"));
    assert!(contains_text("grüße", "üß"));
}

#[test]
fn texts_compare_by_their_bytes() {
    assert!(same("a", "a"));
    assert!(!same("a", "ab"));
    assert!(same_texts(&strings(&["a", "b"]), &strings(&["a", "b"])));
    assert!(!same_texts(&strings(&["a", "b"]), &strings(&["b", "a"])));
    let pairs = [("a", "b"), ("a", "ab"), ("Z", "a"), ("z", "ä"), ("", "a"), ("b", "b")];
    for (a, b) in pairs {
        assert_eq!(precedes(a, b), a <= b);
        assert_eq!(precedes(b, a), b <= a);
    }
}

#[test]
fn sorting_is_stable() {
    let names = strings(&["b", "a", "b", "a"]);
    assert_eq!(stable_order(&names), vec![1, 3, 0, 2]);
    let mut expected = strings(&["worker2", "Worker", "ä", "worker10"]);
    let sorted = sorted_texts(&expected);
    expected.sort();
    assert_eq!(sorted, expected);
}
