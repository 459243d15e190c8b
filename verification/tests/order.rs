use allocated::{compare_keys, KeyOrder};

#[test]
fn compare_keys_follows_ord() {
    assert_eq!(compare_keys(&1, &2), KeyOrder::Less);
    assert_eq!(compare_keys(&2, &2), KeyOrder::Equal);
    assert_eq!(compare_keys(&"b", &"a"), KeyOrder::Greater);
}
