use colony_core::variant_eq;

#[test]
fn test_variant_eq_same_variant() {
    let a = Some(5);
    let b = Some(10);
    assert!(variant_eq(&a, &b));
}

#[test]
fn test_variant_eq_different_variant() {
    let a = Some(5);
    let b = None;
    assert!(!variant_eq(&a, &b));
}

#[test]
fn test_variant_eq_same_value_different_variant() {
    let a = Some(5);
    let b = Some(5);
    assert!(variant_eq(&a, &b));
}
