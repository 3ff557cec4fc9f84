use workshop::basic::{add, get_42i32, get_debug, get_false, get_unit};

#[test]
fn get_false_should_return_false_as_bool() {
    let result: bool = get_false();
    assert_eq!(false, result);
}

#[test]
fn get_42i32_should_return_42_as_i32() {
    let result: i32 = get_42i32();
    assert_eq!(42, result);
}

#[test]
fn get_unit_should_return_unit() {
    let result: () = get_unit();
    assert_eq!((), result);
}

#[test]
fn add_with_8u8_1024u16_should_return_1032u32() {
    let result: u32 = add(8u8, 1024u16);
    assert_eq!(1032, result);
}

#[test]
fn get_debug_with_42i64_and_some_context_should_return_debug_string() {
    let result: String = get_debug(42i64, "some context");
    assert_eq!(String::from("\"some context\" debug: 42"), result);
}

#[test]
fn add_with_largest_operands_does_not_overflow() {
    assert_eq!(65790u32, add(u8::MAX, u16::MAX));
}

#[test]
fn get_debug_escapes_quotes_and_writes_negative_numbers() {
    assert_eq!(String::from("\"say \\\"hi\\\"\" debug: -7"), get_debug(-7, "say \"hi\""));
    assert_eq!(String::from("\"\" debug: -9223372036854775808"), get_debug(i64::MIN, ""));
}
