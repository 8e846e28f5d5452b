use int_algebra::{AsValueRef, Handle, IntType, IntValue, OverflowTag};

#[test]
fn round_trip_identity() {
    let h = Handle::IntConstant { width: 32, bits: 7, tag: OverflowTag::Plain };
    let v = IntValue::new(h);
    assert_eq!(v.as_value_ref(), h);
    let h64 = Handle::IntConstant { width: 64, bits: u64::MAX, tag: OverflowTag::NoSignedWrap };
    assert_eq!(IntValue::new(h64).as_value_ref(), h64);
}

#[test]
fn double_negation_is_identity() {
    let t = IntType::new(32);
    let a = t.const_int(10);
    assert_eq!(a.const_neg().const_neg(), a);
    let m = t.const_int(0xFFFF_FFF6); // -10 at 32 bits
    assert_eq!(m.const_neg().const_neg(), m);
    let z = t.const_int(0);
    assert_eq!(z.const_neg().const_neg(), z);
}

#[test]
fn addition_commutes() {
    let t = IntType::new(32);
    let a = t.const_int(10);
    let b = t.const_int(3);
    assert_eq!(a.const_add(&b), b.const_add(&a));
    let t8 = IntType::new(8);
    let c = t8.const_int(200);
    let d = t8.const_int(100);
    // wraps at 8 bits, both ways to the same constant
    assert_eq!(c.const_add(&d), d.const_add(&c));
    assert_eq!(c.const_add(&d).get_zero_extended_constant(), 44);
}

#[test]
fn exact_division_matches_signed_division() {
    let t = IntType::new(32);
    let a = t.const_int(10);
    let b = t.const_int(5);
    assert_eq!(a.const_exact_signed_div(&b), a.const_signed_div(&b));
    let neg12 = t.const_int(12).const_neg();
    let three = t.const_int(3);
    assert_eq!(neg12.const_exact_signed_div(&three), neg12.const_signed_div(&three));
    assert_eq!(
        neg12.const_exact_signed_div(&three).get_zero_extended_constant(),
        0xFFFF_FFFC // -4 at 32 bits
    );
}

#[test]
fn xor_with_itself_is_zero() {
    let t = IntType::new(32);
    let a = t.const_int(0xDEAD_BEEF);
    let z = a.const_xor(&a);
    assert!(z.is_null());
    assert_eq!(z.get_zero_extended_constant(), 0);
    assert_eq!(z, t.const_int(0));
}

#[test]
fn widening_cast_extends_by_flag() {
    let t8 = IntType::new(8);
    let t16 = IntType::new(16);
    let c = t8.const_int(0xFF); // -1 as a signed byte
    let signed = c.const_cast(&t16, true);
    assert_eq!(signed.get_zero_extended_constant(), 0xFFFF);
    let unsigned = c.const_cast(&t16, false);
    assert_eq!(unsigned.get_zero_extended_constant(), 0x00FF);
}

#[test]
fn narrowing_cast_truncates_regardless_of_flag() {
    let t32 = IntType::new(32);
    let t8 = IntType::new(8);
    let c = t32.const_int(0x1FF);
    assert_eq!(c.const_cast(&t8, true).get_zero_extended_constant(), 0xFF);
    assert_eq!(c.const_cast(&t8, false).get_zero_extended_constant(), 0xFF);
    assert_eq!(c.const_cast(&t8, false).get_type().get_bit_width(), 8);
}

#[test]
fn division_scenario() {
    let t = IntType::new(32);
    let a = t.const_int(10);
    let b = t.const_int(3);
    assert_eq!(a.const_signed_div(&b).get_zero_extended_constant(), 3);
    assert_eq!(a.const_signed_remainder(&b).get_zero_extended_constant(), 1);
    assert_eq!(a.const_unsigned_div(&b).get_zero_extended_constant(), 3);
    assert_eq!(a.const_unsigned_remainder(&b).get_zero_extended_constant(), 1);
}

#[test]
fn overflow_variant_adds_agree_when_nothing_overflows() {
    let t = IntType::new(32);
    let a = t.const_int(10);
    let b = t.const_int(3);
    let plain = a.const_add(&b);
    let nsw = a.const_nsw_add(&b);
    let nuw = a.const_nuw_add(&b);
    // structurally equal constants: same width, same value...
    for v in [&plain, &nsw, &nuw] {
        assert_eq!(v.get_zero_extended_constant(), 13);
        assert_eq!(v.get_type().get_bit_width(), 32);
    }
    // ...that differ only in the attribute their printed form records,
    // so their handles (and hence the wrappers) are not equal
    assert_eq!(plain.print_to_string(), "i32 13");
    assert_eq!(nsw.print_to_string(), "i32 13 nsw");
    assert_eq!(nuw.print_to_string(), "i32 13 nuw");
    assert_ne!(plain, nsw);
    assert_ne!(plain, nuw);
    assert_ne!(nsw, nuw);
    assert_ne!(plain.as_value_ref(), nsw.as_value_ref());
}

#[test]
fn signed_division_truncates_toward_zero() {
    let t = IntType::new(32);
    let neg10 = t.const_int(10).const_neg();
    let three = t.const_int(3);
    // -10 / 3 == -3 (not -4), remainder -1
    assert_eq!(neg10.const_signed_div(&three).print_to_string(), "i32 -3");
    assert_eq!(neg10.const_signed_remainder(&three).print_to_string(), "i32 -1");
    // 10 / -3 == -3, remainder 1
    let neg3 = three.const_neg();
    let ten = t.const_int(10);
    assert_eq!(ten.const_signed_div(&neg3).print_to_string(), "i32 -3");
    assert_eq!(ten.const_signed_remainder(&neg3).print_to_string(), "i32 1");
}

#[test]
fn subtraction_and_multiplication_fold() {
    let t = IntType::new(8);
    let a = t.const_int(7);
    let b = t.const_int(9);
    assert_eq!(a.const_sub(&b).get_zero_extended_constant(), 254); // -2 wrapped
    assert_eq!(b.const_sub(&a).get_zero_extended_constant(), 2);
    assert_eq!(a.const_mul(&b).get_zero_extended_constant(), 63);
    let c = t.const_int(32);
    assert_eq!(c.const_mul(&t.const_int(8)).get_zero_extended_constant(), 0); // 256 wraps to 0
    assert_eq!(a.const_nuw_sub(&t.const_int(2)).get_zero_extended_constant(), 5);
    assert_eq!(a.const_nsw_mul(&t.const_int(3)).get_zero_extended_constant(), 21);
    assert_eq!(a.const_nuw_mul(&t.const_int(3)).get_zero_extended_constant(), 21);
    assert_eq!(a.const_nsw_sub(&b).get_zero_extended_constant(), 254);
}

#[test]
fn negation_variants() {
    let t = IntType::new(8);
    let a = t.const_int(10);
    assert_eq!(a.const_neg().get_zero_extended_constant(), 246);
    let nsw = a.const_nsw_neg();
    assert_eq!(nsw.get_zero_extended_constant(), 246);
    assert_eq!(nsw.print_to_string(), "i8 -10 nsw");
    let z = t.const_int(0);
    assert_eq!(z.const_nuw_neg().get_zero_extended_constant(), 0);
    assert_eq!(z.const_nuw_neg().print_to_string(), "i8 0 nuw");
}

#[test]
fn bitwise_operations_fold() {
    let t = IntType::new(8);
    let a = t.const_int(0b1100_1010);
    let b = t.const_int(0b1010_0110);
    assert_eq!(a.const_and(&b).get_zero_extended_constant(), 0b1000_0010);
    assert_eq!(a.const_or(&b).get_zero_extended_constant(), 0b1110_1110);
    assert_eq!(a.const_xor(&b).get_zero_extended_constant(), 0b0110_1100);
    assert_eq!(a.const_not().get_zero_extended_constant(), 0b0011_0101);
}

#[test]
fn extreme_widths_wrap() {
    let t1 = IntType::new(1);
    let one = t1.const_int(1);
    assert_eq!(one.const_neg(), one); // -1 == 1 at one bit
    assert_eq!(one.const_add(&one).get_zero_extended_constant(), 0);
    let t64 = IntType::new(64);
    let max = t64.const_int(u64::MAX);
    assert_eq!(max.const_not().get_zero_extended_constant(), 0);
    assert_eq!(max.const_add(&t64.const_int(1)).get_zero_extended_constant(), 0);
    assert_eq!(max.print_to_string(), "i64 -1");
}

#[test]
fn const_int_wraps_into_width() {
    let t = IntType::new(8);
    assert_eq!(t.const_int(0x1234).get_zero_extended_constant(), 0x34);
    assert_eq!(t.const_int(255).get_zero_extended_constant(), 255);
}
