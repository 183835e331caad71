use legatia_token::arith::{safe_add, safe_sub};

#[test]
fn test_safe_arithmetic() {
    // Test safe addition
    assert!(safe_add(u128::MAX, 1).is_err());
    assert_eq!(safe_add(100, 200).unwrap(), 300);

    // Test safe subtraction
    assert!(safe_sub(100, 200).is_err());
    assert_eq!(safe_sub(200, 100).unwrap(), 100);
}

#[test]
fn test_safe_arithmetic_bounds() {
    assert_eq!(safe_add(u128::MAX - 1, 1).unwrap(), u128::MAX);
    assert_eq!(safe_add(0, 0).unwrap(), 0);
    assert_eq!(safe_sub(5, 5).unwrap(), 0);
    assert!(safe_sub(0, 1).is_err());
}
