use stackvm::number::{digits_of, Number};
use stackvm::object::{from_number, from_string, string_to_number};

#[test]
fn number_text_is_normalised() {
    assert_eq!(Number::from_str("007").to_text(), "7");
    assert_eq!(Number::from_str("1.50").to_text(), "1.50");
    assert_eq!(Number::from_str("-3").to_text(), "-3");
}

#[test]
fn text_that_is_no_number_reads_as_nan() {
    assert_eq!(Number::from_str("abc").to_text(), "NaN");
    assert_eq!(Number::from_str("").to_text(), "NaN");
}

#[test]
fn digits_of_writes_decimal() {
    assert_eq!(digits_of(0), "0");
    assert_eq!(digits_of(7), "7");
    assert_eq!(digits_of(10), "10");
    assert_eq!(digits_of(104), "104");
    assert_eq!(digits_of(4294967295), "4294967295");
}

#[test]
fn number_sum() {
    let r = Number::from_str("2") + Number::from_str("3");
    assert_eq!(r.to_text(), "5");
    let r = Number::from_str("0.1") + Number::from_str("0.2");
    assert_eq!(r.to_text(), "0.3");
}

#[test]
fn number_difference() {
    let r = Number::from_str("5") - Number::from_str("3");
    assert_eq!(r.to_text(), "2");
    let r = Number::from_str("3") - Number::from_str("5");
    assert_eq!(r.to_text(), "-2");
}

#[test]
fn number_product() {
    let r = Number::from_str("6") * Number::from_str("7");
    assert_eq!(r.to_text(), "42");
}

#[test]
fn number_quotient() {
    let r = Number::from_str("6") / Number::from_str("3");
    assert_eq!(r.to_text(), "2");
    let r = Number::from_str("1") / Number::from_str("4");
    assert_eq!(r.to_text(), "0.25");
}

#[test]
fn number_quotient_by_zero_is_a_value() {
    let r = Number::from_str("1") / Number::from_str("0");
    assert_eq!(r.to_text(), "Infinity");
}

#[test]
fn number_remainder() {
    let r = Number::from_str("7") % Number::from_str("4");
    assert_eq!(r.to_text(), "3");
}

#[test]
fn number_equality_is_numeric() {
    assert!(Number::from_str("1.0").equals(&Number::from_str("1.00")));
    assert!(!Number::from_str("1").equals(&Number::from_str("2")));
    assert!(!Number::from_str("NaN").equals(&Number::from_str("NaN")));
}

#[test]
fn number_order() {
    let one = Number::from_str("1");
    let two = Number::from_str("2");
    assert!(one.less_than(&two));
    assert!(!two.less_than(&one));
    assert!(!one.less_than(&one));
    assert!(two.greater_than(&one));
    assert!(!one.greater_than(&two));
    assert!(!one.greater_than(&one));
}

#[test]
fn number_to_integer_rounds_half_to_even() {
    assert_eq!(Number::from_str("42").to_i32(), 42);
    assert_eq!(Number::from_str("2.5").to_i32(), 2);
    assert_eq!(Number::from_str("3.5").to_i32(), 4);
    assert_eq!(Number::from_str("-7").to_i32(), -7);
}

#[test]
fn number_to_usize() {
    assert_eq!(Number::from_str("42").to_usize(), 42);
    assert_eq!(Number::from_str("0").to_usize(), 0);
    assert_eq!(Number::from_str("-1").to_usize(), usize::MAX);
    assert_eq!(Number::from_str("-2").to_usize(), usize::MAX - 1);
}

#[test]
fn number_to_u128() {
    assert_eq!(Number::from_str("42").to_u128(), 42);
    assert_eq!(Number::from_str("-1").to_u128(), u128::MAX);
}

#[test]
fn number_to_char_is_the_character_with_that_code() {
    assert_eq!(Number::from_str("104").to_char(), 'h');
    assert_eq!(Number::from_str("233").to_char(), 'é');
    assert_eq!(Number::from_str("360").to_char(), 'Ũ');
    assert_eq!(Number::from_str("8364").to_char(), '€');
    assert_eq!(Number::from_str("1114111").to_char(), '\u{10FFFF}');
    assert_eq!(Number::from_str("0").to_char(), '\u{0}');
}

#[test]
fn number_to_char_without_such_a_character_takes_the_lowest_byte() {
    assert_eq!(Number::from_str("-152").to_char(), 'h');
    assert_eq!(Number::from_str("55400").to_char(), 'h');
    assert_eq!(Number::from_str("1114216").to_char(), 'h');
    assert_eq!(Number::from_str("NaN").to_char(), '\u{0}');
}

#[test]
fn number_from_char() {
    assert_eq!(Number::from_char('h').to_text(), "104");
    assert_eq!(Number::from_char('h').to_char(), 'h');
}

#[test]
fn number_unwrap_and_clone_keep_the_text() {
    let n = Number::from_str("12.5");
    assert_eq!(n.unwrap().to_text(), "12.5");
    assert_eq!(n.clone().to_text(), "12.5");
}

#[test]
fn contents_of_a_string() {
    let c = from_string("hi");
    assert_eq!(c.len(), 2);
    assert_eq!(c[0].to_text(), "104");
    assert_eq!(c[1].to_text(), "105");
    assert_eq!(from_string("").len(), 0);
}

#[test]
fn contents_of_a_number() {
    let c = from_number(Number::from_str("9"));
    assert_eq!(c.len(), 1);
    assert_eq!(c[0].to_text(), "9");
}

#[test]
fn string_to_number_reads_text() {
    assert_eq!(string_to_number("0".to_string()).to_text(), "0");
    assert_eq!(string_to_number("12".to_string()).to_text(), "12");
}
