use mayara_signalk::order::{characters, comes_before, same_text, sort_by_key, sort_texts};
use mayara_signalk::text::{concat_three, concat_two, join, quote_list, to_decimal, to_hexadecimal};

fn texts(given: &[&str]) -> Vec<String> {
    given.iter().map(|text| text.to_string()).collect()
}

#[test]
fn texts_are_ordered_as_std_orders_them() {
    let all = ["", "a", "ab", "b", "B", "a b", "\u{e9}", "\u{1F600}", "\u{FFFD}"];
    for a in all {
        for b in all {
            assert_eq!(comes_before(a, b), a < b);
            assert_eq!(same_text(a, b), a == b);
        }
    }
}

#[test]
fn characters_come_one_by_one() {
    assert_eq!(characters("a\u{e9}\u{1F600}"), vec!['a', '\u{e9}', '\u{1F600}']);
}

#[test]
fn texts_are_sorted() {
    let given = texts(&["sea", "Gain", "gain", "", "gain"]);
    let mut expected = given.clone();
    expected.sort();
    assert_eq!(sort_texts(given), expected);
}

#[test]
fn equal_keys_stay_in_the_order_they_came_in() {
    let given = vec![
        ("b".to_string(), 1),
        ("a".to_string(), 2),
        ("b".to_string(), 3),
        ("a".to_string(), 4),
    ];
    let mut expected = given.clone();
    expected.sort_by(|x, y| x.0.cmp(&y.0));
    assert_eq!(sort_by_key(given), expected);
}

#[test]
fn texts_are_joined() {
    assert_eq!(join(&texts(&[]), "; "), "");
    assert_eq!(join(&texts(&["a"]), "; "), "a");
    assert_eq!(join(&texts(&["a", "", "c"]), "; "), "a; ; c");
    assert_eq!(concat_two("a", "b"), "ab");
    assert_eq!(concat_three("a", "b", "c"), "abc");
}

#[test]
fn lists_read_as_std_debug_has_them() {
    for given in [texts(&[]), texts(&["a"]), texts(&["a\"", "b\n", "\u{e9}"])] {
        assert_eq!(quote_list(&given), format!("{:?}", given));
    }
}

#[test]
fn numbers_are_written_in_decimal() {
    for number in [0, 9, 10, 99, 100, 255, 4096, u64::MAX] {
        assert_eq!(to_decimal(number), format!("{}", number));
    }
}

#[test]
fn numbers_are_written_in_hexadecimal() {
    for number in [0, 9, 10, 15, 16, 255, 4096, u64::MAX] {
        assert_eq!(to_hexadecimal(number), format!("{:x}", number));
    }
}
