use charge_notifier::console::{
    is_valid_date_input, notifies_suspension, parse_menu_option, parse_suspension_answer,
    trim_line_ending, MenuOption, SuspensionAnswer,
};
use charge_notifier::dates::{checked_now, instant_of, ClockError, format_date, get_yesterday_date_in_sao_paulo, yesterday_in_sao_paulo_at};

#[test]
fn dates_are_written_day_month_year() {
    assert_eq!(format_date((2024, 3, 5)), "05/03/2024");
    assert_eq!(format_date((1999, 12, 31)), "31/12/1999");
    assert_eq!(format_date((5, 1, 1)), "01/01/0005");
    assert_eq!(format_date((-1, 1, 1)), "01/01/-0001");
    assert_eq!(format_date((10000, 1, 1)), "01/01/+10000");
}

#[test]
fn yesterday_at_noon_utc() {
    // 2024-03-05T12:00:00Z
    assert_eq!(yesterday_in_sao_paulo_at(1_709_640_000), "04/03/2024");
}

#[test]
fn yesterday_uses_sao_paulo_time() {
    // 2024-03-05T02:00:00Z is 2024-03-04T23:00 in São Paulo.
    assert_eq!(yesterday_in_sao_paulo_at(1_709_604_000), "03/03/2024");
}

#[test]
fn yesterday_now_has_the_typed_shape() {
    let d = get_yesterday_date_in_sao_paulo().unwrap();
    assert_eq!(d.len(), 10);
    assert!(is_valid_date_input(&d));
}

#[test]
fn line_endings_are_dropped() {
    assert_eq!(trim_line_ending("abc\r\n"), "abc");
    assert_eq!(trim_line_ending("abc\n"), "abc");
    assert_eq!(trim_line_ending("abc\r"), "abc");
    assert_eq!(trim_line_ending("abc\n\r"), "abc\n");
    assert_eq!(trim_line_ending(""), "");
    assert_eq!(trim_line_ending("olá\n"), "olá");
}

#[test]
fn menu_options() {
    assert_eq!(parse_menu_option("1"), MenuOption::ListOverdue);
    assert_eq!(parse_menu_option("2"), MenuOption::RemindYesterday);
    assert_eq!(parse_menu_option("3"), MenuOption::RemindOnDate);
    assert_eq!(parse_menu_option("4"), MenuOption::Invalid);
    assert_eq!(parse_menu_option(" 1"), MenuOption::Invalid);
    assert_eq!(parse_menu_option(""), MenuOption::Invalid);
}

#[test]
fn typed_dates_need_two_two_four_bytes() {
    assert!(is_valid_date_input("05/03/2024"));
    assert!(!is_valid_date_input("5/03/2024"));
    assert!(!is_valid_date_input("05/03/24"));
    assert!(!is_valid_date_input("05/03/2024/"));
    assert!(!is_valid_date_input("05-03-2024"));
    assert!(!is_valid_date_input(""));
    // The lengths are byte lengths: 'é' takes two bytes.
    assert!(is_valid_date_input("é/03/2024"));
    assert!(is_valid_date_input("ab/cd/efgh"));
}

#[test]
fn suspension_answers() {
    assert_eq!(parse_suspension_answer("S"), SuspensionAnswer::Yes);
    assert_eq!(parse_suspension_answer("Sim"), SuspensionAnswer::Yes);
    assert_eq!(parse_suspension_answer("n"), SuspensionAnswer::No);
    assert_eq!(parse_suspension_answer("NÃO"), SuspensionAnswer::No);
    assert_eq!(parse_suspension_answer("Nao"), SuspensionAnswer::No);
    assert_eq!(parse_suspension_answer("talvez"), SuspensionAnswer::Unrecognized);
    assert!(notifies_suspension(SuspensionAnswer::Yes));
    assert!(!notifies_suspension(SuspensionAnswer::No));
    assert!(!notifies_suspension(SuspensionAnswer::Unrecognized));
}

#[test]
fn clock_reads_an_instant_after_the_epoch() {
    let now = checked_now().unwrap();
    assert!(now > 1_700_000_000);
    assert_eq!(get_yesterday_date_in_sao_paulo().unwrap().len(), 10);
}

#[test]
fn instants_of_clock_readings() {
    assert_eq!(instant_of(None), Err(ClockError::BeforeEpoch));
    assert_eq!(instant_of(Some(0)), Ok(0));
    assert_eq!(instant_of(Some(1_709_604_000)), Ok(1_709_604_000));
    assert_eq!(instant_of(Some(8_210_266_876_799)), Ok(8_210_266_876_799));
    assert_eq!(instant_of(Some(8_210_266_876_800)), Err(ClockError::OutOfRange));
    assert_eq!(instant_of(Some(u64::MAX)), Err(ClockError::OutOfRange));
}
