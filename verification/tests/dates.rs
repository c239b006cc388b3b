use bioenpro4to_channel_manager::utils::{
    check_date_format, date_to_timestamp, timestamp_to_date, timestamp_to_date_string,
    validate_date,
};


#[test]
fn valid_dates_are_accepted() {
    assert!(validate_date(25, 5, 2021));
    assert!(validate_date(1, 1, 1970));
    assert!(validate_date(31, 12, 9999));
    assert!(validate_date(29, 2, 2020));
    assert!(validate_date(29, 2, 2000));
    assert!(validate_date(31, 1, 2021));
    assert!(validate_date(30, 4, 2021));
}

#[test]
fn impossible_dates_are_rejected() {
    assert!(!validate_date(31, 4, 2021));
    assert!(!validate_date(29, 2, 2021));
    assert!(!validate_date(29, 2, 1900));
    assert!(!validate_date(0, 5, 2021));
    assert!(!validate_date(25, 0, 2021));
    assert!(!validate_date(25, 13, 2021));
    assert!(!validate_date(32, 1, 2021));
}

#[test]
fn midnight_timestamps_match_known_values() {
    assert_eq!(date_to_timestamp(1, 1, 1970), 0);
    assert_eq!(date_to_timestamp(25, 5, 2021), 1621900800);
    assert_eq!(date_to_timestamp(26, 5, 2021), 1621987200);
    assert_eq!(date_to_timestamp(28, 5, 2021), 1622160000);
    assert_eq!(date_to_timestamp(29, 2, 2020), 1582934400);
    assert_eq!(date_to_timestamp(31, 12, 1969), -86400);
}

#[test]
fn timestamps_convert_back_to_their_date() {
    let d = timestamp_to_date(1621900800, false);
    assert_eq!((d.day, d.month, d.year), (25, 5, 2021));
    // Any second of the day belongs to the same calendar date.
    let d = timestamp_to_date(1621900800 + 86399, false);
    assert_eq!((d.day, d.month, d.year), (25, 5, 2021));
    let d = timestamp_to_date(-1, false);
    assert_eq!((d.day, d.month, d.year), (31, 12, 1969));
    let d = timestamp_to_date(0, false);
    assert_eq!((d.day, d.month, d.year), (1, 1, 1970));
    // Milliseconds are truncated to seconds first.
    let d = timestamp_to_date(1621900800_500, true);
    assert_eq!((d.day, d.month, d.year), (25, 5, 2021));
}

#[test]
fn date_strings_are_zero_padded() {
    assert_eq!(timestamp_to_date_string(1621900800, false), "25/05/2021");
    assert_eq!(timestamp_to_date_string(0, false), "01/01/1970");
    assert_eq!(timestamp_to_date_string(-86400, false), "31/12/1969");
    assert_eq!(timestamp_to_date_string(1621900800_000, true), "25/05/2021");
}

#[test]
fn date_format_check_follows_the_pattern() {
    assert!(check_date_format("25/05/2021"));
    assert!(check_date_format("01/01/1970"));
    assert!(check_date_format("31/12/9999"));
    // Two digits are required everywhere, the year takes exactly four.
    assert!(!check_date_format("5/05/2021"));
    assert!(!check_date_format("25/5/2021"));
    assert!(!check_date_format("25/05/21"));
    assert!(!check_date_format("25-05-2021"));
    // The first day digit stops at three, the month at twelve.
    assert!(!check_date_format("41/05/2021"));
    assert!(!check_date_format("32/05/2021"));
    assert!(!check_date_format("25/13/2021"));
    assert!(check_date_format("31/12/2021"));
    assert!(!check_date_format(""));
    assert!(!check_date_format("25/05/2021x"));
}

#[test]
fn small_years_and_negative_millis_render_consistently() {
    // Years below one thousand keep their plain decimal rendering.
    let ts = date_to_timestamp(1, 1, 70);
    assert_eq!(timestamp_to_date_string(ts, false), "01/01/70");
    // Negative millisecond timestamps floor to the previous second.
    let d = timestamp_to_date(-500, true);
    assert_eq!((d.day, d.month, d.year), (31, 12, 1969));
}
