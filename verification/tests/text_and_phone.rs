use charge_notifier::phone::format_phone_number;
use charge_notifier::text::decimal_string;

fn s(x: &str) -> String {
    x.to_string()
}

#[test]
fn phone_drops_punctuation_and_dashes() {
    assert_eq!(format_phone_number(s("(11)"), s("9 8765-4321")), "11987654321");
}

#[test]
fn phone_keeps_dashes_of_area_code() {
    assert_eq!(format_phone_number(s("1-1"), s("23-45")), "1-12345");
}

#[test]
fn phone_is_trimmed_of_white_space() {
    assert_eq!(format_phone_number(s("\t11"), s("1234\n")), "111234");
    assert_eq!(format_phone_number(s("\u{a0}11"), s("22\u{3000}")), "1122");
}

#[test]
fn phone_keeps_inner_tabs() {
    assert_eq!(format_phone_number(s("11"), s("22\t33")), "1122\t33");
}

#[test]
fn phone_of_empty_parts_is_empty() {
    assert_eq!(format_phone_number(s(""), s("")), "");
    assert_eq!(format_phone_number(s(" ( ) "), s("- -")), "");
}

#[test]
fn decimal_numerals() {
    assert_eq!(decimal_string(0), "0");
    assert_eq!(decimal_string(7), "7");
    assert_eq!(decimal_string(1234567890), "1234567890");
    assert_eq!(decimal_string(u64::MAX), u64::MAX.to_string());
}
