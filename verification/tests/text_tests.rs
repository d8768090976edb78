use zoo_core::text::{int_to_string, is_blank, make_id_message};

#[test]
fn renders_zero() {
    assert_eq!(int_to_string(0), "0");
}

#[test]
fn renders_single_digit() {
    assert_eq!(int_to_string(7), "7");
}

#[test]
fn renders_multiple_digits() {
    assert_eq!(int_to_string(421), "421");
    assert_eq!(int_to_string(1000), "1000");
}

#[test]
fn renders_negative_numbers() {
    assert_eq!(int_to_string(-15), "-15");
}

#[test]
fn renders_extreme_values() {
    assert_eq!(int_to_string(i32::MAX), "2147483647");
    assert_eq!(int_to_string(i32::MIN), "-2147483648");
}

#[test]
fn builds_message_around_an_id() {
    let m = make_id_message("Animal with id ", 12, " not found");
    assert_eq!(m, "Animal with id 12 not found");
}

#[test]
fn empty_and_whitespace_strings_are_blank() {
    assert!(is_blank(""));
    assert!(is_blank("   "));
    assert!(is_blank(" \t\r\n"));
}

#[test]
fn text_with_any_visible_character_is_not_blank() {
    assert!(!is_blank("Leo"));
    assert!(!is_blank("  a  "));
}
