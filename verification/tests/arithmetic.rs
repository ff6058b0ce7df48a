use zk_framework::{mod_add, mod_inv, mod_mul, mod_sub};

#[test]
fn mod_add_basic() {
    assert_eq!(mod_add(3, 5, 1000), 8);
    assert_eq!(mod_add(700, 400, 1000), 100);
    assert_eq!(mod_add(0, 0, 7), 0);
}

#[test]
fn mod_add_matches_truncated_remainder() {
    assert_eq!(mod_add(-7, 2, 3), -2);
    assert_eq!(mod_add(7, -2, -3), 2);
    assert_eq!(mod_add(i32::MAX, i32::MAX, 1000), 294);
}

#[test]
fn mod_sub_basic() {
    assert_eq!(mod_sub(3, 5, 1000), -2);
    assert_eq!(mod_sub(5, 3, 1000), 2);
    assert_eq!(mod_sub(0, i32::MIN, 1000), 648);
}

#[test]
fn mod_mul_basic() {
    assert_eq!(mod_mul(3, 5, 1000), 15);
    assert_eq!(mod_mul(123, 456, 1000), 88);
    assert_eq!(mod_mul(-4, 5, 3), -2);
    assert_eq!(mod_mul(i32::MIN, i32::MIN, 997), 988);
}

#[test]
fn mod_inv_finds_inverse_of_coprime() {
    assert_eq!(mod_inv(3, 7), Some(5));
    assert_eq!(mod_inv(1, 2), Some(1));
    assert_eq!(mod_inv(7, 10), Some(3));
    let x = mod_inv(17, 1000).unwrap();
    assert_eq!((17 * x) % 1000, 1);
}

#[test]
fn mod_inv_none_when_not_coprime() {
    assert_eq!(mod_inv(2, 4), None);
    assert_eq!(mod_inv(4, 6), None);
    assert_eq!(mod_inv(0, 5), None);
    assert_eq!(mod_inv(10, 1000), None);
}

#[test]
fn mod_inv_none_for_degenerate_modulus() {
    assert_eq!(mod_inv(3, 1), None);
    assert_eq!(mod_inv(3, 0), None);
    assert_eq!(mod_inv(3, -5), None);
}
