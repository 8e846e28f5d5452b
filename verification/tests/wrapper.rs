use int_algebra::{AsValueRef, Handle, IntType, OverflowTag};

#[test]
fn equality_is_constant_identity() {
    let t = IntType::new(32);
    let a = t.const_int(13);
    let b = t.const_int(6).const_add(&t.const_int(7));
    // interning: folding the same constant the same way yields the
    // same handle, so the wrappers compare equal
    assert_eq!(a, b);
    assert_eq!(a.as_value_ref(), b.as_value_ref());
    let other_width = IntType::new(16).const_int(13);
    assert_ne!(a, other_width);
    assert_ne!(a, t.const_int(14));
}

#[test]
fn names_of_constants_are_empty() {
    let t = IntType::new(32);
    let a = t.const_int(5);
    assert_eq!(a.get_name(), "");
    a.set_name("label");
    assert_eq!(a.get_name(), "");
}

#[test]
fn type_query_reports_width() {
    let t = IntType::new(24);
    assert_eq!(t.get_bit_width(), 24);
    let v = t.const_int(99);
    assert_eq!(v.get_type().get_bit_width(), 24);
    assert_eq!(v.get_type(), t);
}

#[test]
fn null_and_undef_queries() {
    let t = IntType::new(32);
    assert!(t.const_int(0).is_null());
    assert!(!t.const_int(1).is_null());
    assert!(!t.const_int(0).is_undef());
    assert!(!t.const_int(77).is_undef());
}

#[test]
fn constants_are_not_instructions() {
    let t = IntType::new(32);
    assert!(t.const_int(4).as_instruction().is_none());
    assert!(t.const_int(4).const_add(&t.const_int(1)).as_instruction().is_none());
}

#[test]
fn printing_renders_type_value_and_attribute() {
    let t = IntType::new(32);
    assert_eq!(t.const_int(0).print_to_string(), "i32 0");
    assert_eq!(t.const_int(10).print_to_string(), "i32 10");
    assert_eq!(t.const_int(10).const_neg().print_to_string(), "i32 -10");
    assert_eq!(t.const_int(2147483648).print_to_string(), "i32 -2147483648");
    assert_eq!(t.const_int(2147483647).print_to_string(), "i32 2147483647");
    let wide = IntType::new(64).const_int(1234567890123456789);
    assert_eq!(wide.print_to_string(), "i64 1234567890123456789");
    let nuw = t.const_int(1).const_nuw_add(&t.const_int(2));
    assert_eq!(nuw.print_to_string(), "i32 3 nuw");
    // the stderr form only writes; it must at least not disturb the value
    let v = t.const_int(42);
    v.print_to_stderr();
    assert_eq!(v.get_zero_extended_constant(), 42);
}

#[test]
fn raw_handle_stays_readable_through_the_capability() {
    let h = Handle::IntConstant { width: 8, bits: 200, tag: OverflowTag::Plain };
    let t = IntType::new(8);
    let v = t.const_int(200);
    assert_eq!(v.as_value_ref(), h);
}
