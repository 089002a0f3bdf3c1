use checkout_customization::text::str_contains;

#[test]
fn contains_finds_substrings_anywhere() {
    assert!(str_contains("Cash on Delivery", "Cash"));
    assert!(str_contains("Cash on Delivery", "on D"));
    assert!(str_contains("Cash on Delivery", "Delivery"));
    assert!(str_contains("Cash on Delivery", "Cash on Delivery"));
}

#[test]
fn contains_is_case_sensitive() {
    assert!(!str_contains("Cash on Delivery", "cash"));
    assert!(!str_contains("card", "Card"));
}

#[test]
fn contains_empty_needle_always_holds() {
    assert!(str_contains("", ""));
    assert!(str_contains("abc", ""));
}

#[test]
fn contains_rejects_longer_needles_and_absent_text() {
    assert!(!str_contains("", "a"));
    assert!(!str_contains("ab", "abc"));
    assert!(!str_contains("Cash", "Bitcoin"));
}

#[test]
fn contains_handles_multibyte_characters() {
    assert!(str_contains("prix: 10€ net", "10€"));
    assert!(!str_contains("prix: 10€ net", "10$"));
}
