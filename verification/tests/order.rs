use whalenest::order::{insert_sorted, str_less};

#[test]
fn strings_compare_like_string_ord() {
    for (a, b) in [("a", "b"), ("ab", "b"), ("", "a"), ("abc", "abd"), ("Z", "a"), ("é", "z")] {
        assert_eq!(str_less(a, b), a < b, "{a} < {b}");
        assert_eq!(str_less(b, a), b < a);
    }
    assert!(!str_less("same", "same"));
}

#[test]
fn sorted_insert_keeps_set_order() {
    let mut v: Vec<String> = Vec::new();
    for x in ["m", "c", "x", "c", "a"] {
        insert_sorted(&mut v, x.to_string());
    }
    assert_eq!(v, vec!["a", "c", "m", "x"]);
}
