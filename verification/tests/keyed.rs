use dispenser::keyed::{keys_rise, stands_before};

#[test]
fn texts_are_ordered_as_in_the_dictionary() {
    assert!(stands_before("", "a"));
    assert!(!stands_before("", ""));
    assert!(!stands_before("a", ""));
    assert!(stands_before("a", "b"));
    assert!(!stands_before("b", "a"));
    assert!(stands_before("ab", "abc"));
    assert!(!stands_before("abc", "ab"));
    assert!(stands_before("abc", "abd"));
    assert!(stands_before("B", "a"));
    assert!(!stands_before("same", "same"));
}

#[test]
fn the_order_of_texts_is_that_of_std() {
    let texts = ["", "a", "A", "ab", "abc", "b", "z", "DB_URL", "DB_USER", "é", "日本", "~", "0"];
    for a in texts {
        for b in texts {
            assert_eq!(stands_before(a, b), a < b, "{a:?} and {b:?}");
        }
    }
}

#[test]
fn keys_that_rise_stand_for_a_map() {
    let list = |keys: &[&str]| keys.iter().map(|k| (k.to_string(), 0u8)).collect::<Vec<_>>();
    assert!(keys_rise(&list(&[])));
    assert!(keys_rise(&list(&["a"])));
    assert!(keys_rise(&list(&["a", "b", "c"])));
    assert!(!keys_rise(&list(&["a", "c", "b"])));
    assert!(!keys_rise(&list(&["a", "a"])));
    assert!(!keys_rise(&list(&["b", "a"])));
}
