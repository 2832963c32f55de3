use ship::fixed::{integer_sqrt, Fixed};

#[test]
fn whole_numbers_have_sixteen_fraction_bits() {
    assert_eq!(Fixed::from_int(3).raw, 196_608);
    assert_eq!(Fixed::from_int(-2).raw, -131_072);
    assert_eq!(Fixed::one().raw, 65_536);
    assert_eq!(Fixed::zero().raw, 0);
    assert_eq!(Fixed::from_raw(17).raw, 17);
}

#[test]
fn whole_numbers_out_of_range_saturate() {
    assert_eq!(Fixed::from_int(32_767).raw, 32_767 * 65_536);
    assert_eq!(Fixed::from_int(32_768).raw, i32::MAX);
    assert_eq!(Fixed::from_int(-32_768).raw, i32::MIN);
    assert_eq!(Fixed::from_int(-40_000).raw, i32::MIN);
}

#[test]
fn sums_and_differences_saturate() {
    let max = Fixed::from_raw(i32::MAX);
    let min = Fixed::from_raw(i32::MIN);
    let one = Fixed::one();
    assert_eq!(Fixed::from_int(2).saturating_add(Fixed::from_int(3)), Fixed::from_int(5));
    assert_eq!(max.saturating_add(one), max);
    assert_eq!(min.saturating_sub(one), min);
    assert_eq!(Fixed::from_int(2).saturating_sub(Fixed::from_int(3)), Fixed::from_int(-1));
    assert_eq!(min.saturating_neg(), max);
    assert_eq!(one.saturating_neg().raw, -65_536);
}

#[test]
fn products_round_down_and_saturate() {
    let a = Fixed::from_raw(98_304); // 1.5
    let b = Fixed::from_raw(163_840); // 2.5
    assert_eq!(a.saturating_mul(b).raw, 245_760); // 3.75
    assert_eq!(Fixed::from_raw(1).saturating_mul(Fixed::from_raw(1)).raw, 0);
    assert_eq!(Fixed::from_raw(-1).saturating_mul(Fixed::from_raw(1)).raw, -1);
    assert_eq!(Fixed::from_int(300).saturating_mul(Fixed::from_int(300)).raw, i32::MAX);
    assert_eq!(Fixed::from_int(300).saturating_mul(Fixed::from_int(-300)).raw, i32::MIN);
}

#[test]
fn quotients_are_euclidean() {
    let one = Fixed::one();
    let three = Fixed::from_int(3);
    assert_eq!(one.saturating_div(three).raw, 21_845);
    assert_eq!(one.saturating_div(three.saturating_neg()).raw, -21_845);
    assert_eq!(one.saturating_neg().saturating_div(three).raw, -21_846);
    assert_eq!(one.saturating_neg().saturating_div(three.saturating_neg()).raw, 21_846);
    assert_eq!(Fixed::from_int(6).saturating_div(Fixed::from_int(2)), Fixed::from_int(3));
    assert_eq!(Fixed::from_int(30_000).saturating_div(Fixed::from_raw(1)).raw, i32::MAX);
}

#[test]
fn division_by_zero_saturates_by_sign() {
    let zero = Fixed::zero();
    assert_eq!(Fixed::one().saturating_div(zero).raw, i32::MAX);
    assert_eq!(Fixed::from_int(-1).saturating_div(zero).raw, i32::MIN);
    assert_eq!(zero.saturating_div(zero).raw, 0);
}

#[test]
fn smaller_and_larger() {
    let a = Fixed::from_int(-4);
    let b = Fixed::from_int(9);
    assert_eq!(a.min(b), a);
    assert_eq!(b.min(a), a);
    assert_eq!(a.max(b), b);
    assert_eq!(b.max(a), b);
    assert_eq!(a.max(a), a);
}

#[test]
fn floor_ceiling_and_whole_part() {
    let up = Fixed::from_raw(98_304); // 1.5
    let down = Fixed::from_raw(-98_304); // -1.5
    assert_eq!(up.floor(), 1);
    assert_eq!(up.ceil(), 2);
    assert_eq!(up.truncate(), 1);
    assert_eq!(down.floor(), -2);
    assert_eq!(down.ceil(), -1);
    assert_eq!(down.truncate(), -1);
    assert_eq!(Fixed::from_int(7).floor(), 7);
    assert_eq!(Fixed::from_int(7).ceil(), 7);
    assert_eq!(Fixed::from_int(-7).truncate(), -7);
    assert_eq!(Fixed::from_raw(i32::MAX).ceil(), 32_768);
    assert_eq!(Fixed::from_raw(i32::MIN).floor(), -32_768);
}

#[test]
fn integer_square_roots() {
    assert_eq!(integer_sqrt(0), 0);
    assert_eq!(integer_sqrt(1), 1);
    assert_eq!(integer_sqrt(15), 3);
    assert_eq!(integer_sqrt(16), 4);
    assert_eq!(integer_sqrt(17), 4);
    assert_eq!(integer_sqrt(1 << 62), 1 << 31);
    assert_eq!(integer_sqrt(u64::MAX), 4_294_967_295);
}
