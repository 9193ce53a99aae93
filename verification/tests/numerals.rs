use alcl::ir::{
    arm_label_text, definition_text, ir_return_type_text, ir_type_text, label_text, register_text,
    ret_text, slot_align_of, store_text, string_symbol_text,
};
use alcl::text::{decimal_text, digit_text, is_digit_char, is_space_char, signed_text};
use alcl::type_::Type;

#[test]
fn numerals_have_no_leading_zeros() {
    assert_eq!(digit_text(0), "0");
    assert_eq!(digit_text(9), "9");
    assert_eq!(decimal_text(0), "0");
    assert_eq!(decimal_text(7), "7");
    assert_eq!(decimal_text(10), "10");
    assert_eq!(decimal_text(1203), "1203");
    assert_eq!(decimal_text(u128::MAX), "340282366920938463463374607431768211455");
}

#[test]
fn negative_numbers_carry_a_minus_sign() {
    assert_eq!(signed_text(0), "0");
    assert_eq!(signed_text(42), "42");
    assert_eq!(signed_text(-1), "-1");
    assert_eq!(signed_text(i64::MIN), "-9223372036854775808");
    assert_eq!(signed_text(i64::MAX), "9223372036854775807");
}

#[test]
fn white_space_and_digits_are_recognized() {
    for c in [' ', '\t', '\n', '\r', '\u{0B}', '\u{0C}', '\u{85}', '\u{A0}', '\u{2003}', '\u{3000}'] {
        assert!(is_space_char(c));
        assert!(c.is_whitespace());
    }
    for c in ['a', '0', '_', '\u{200B}', '\u{8}', '\u{E}'] {
        assert!(!is_space_char(c));
        assert!(!c.is_whitespace());
    }
    for c in "0123456789".chars() {
        assert!(is_digit_char(c));
    }
    for c in ['/', ':', 'a', '٣'] {
        assert!(!is_digit_char(c));
    }
}

#[test]
fn types_are_written_for_the_representation() {
    assert_eq!(ir_type_text(&Type::integer()), "i32");
    assert_eq!(ir_type_text(&Type::boolean()), "i1");
    assert_eq!(ir_type_text(&Type::Primitive("Char".to_string())), "i8");
    assert_eq!(ir_type_text(&Type::string()), "ptr");
    assert_eq!(ir_type_text(&Type::unit()), "{}");
    assert_eq!(ir_type_text(&Type::Primitive("Float".to_string())), "%Float");
    assert_eq!(ir_type_text(&Type::Struct("P".to_string(), vec![])), "%P");
    assert_eq!(ir_type_text(&Type::Generic("List".to_string(), Box::new(Type::unit()))), "ptr");
    assert_eq!(ir_type_text(&Type::Function(Box::new(Type::unit()), vec![])), "ptr");
    assert_eq!(ir_return_type_text(&Type::unit()), "void");
    assert_eq!(ir_return_type_text(&Type::integer()), "i32");
}

#[test]
fn slots_are_aligned_by_the_table_or_as_pointers() {
    assert_eq!(slot_align_of(&Type::boolean()), 1);
    assert_eq!(slot_align_of(&Type::integer()), 4);
    assert_eq!(slot_align_of(&Type::string()), 8);
    assert_eq!(slot_align_of(&Type::unit()), 8);
    assert_eq!(slot_align_of(&Type::Struct("P".to_string(), vec![])), 8);
}

#[test]
fn instructions_are_written_in_full() {
    assert_eq!(register_text(12), "%12");
    assert_eq!(string_symbol_text(3), "@.str.3");
    assert_eq!(definition_text(2, "add i32 %1, 1"), "  %2 = add i32 %1, 1");
    assert_eq!(store_text("i32", "7", "%1", 4), "  store i32 7, ptr %1, align 4");
    assert_eq!(label_text("then", 10), "then.10");
    assert_eq!(arm_label_text("elif", 1, 2), "elif.1.2");
    assert_eq!(ret_text(&Type::unit(), "undef"), "  ret void");
    assert_eq!(ret_text(&Type::boolean(), "%4"), "  ret i1 %4");
}
