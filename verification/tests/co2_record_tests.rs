use simon_says_seeq_rust::co2::{
    check_record_date, parse_record_date, split_record_line, Co2Line, Co2RecordDate, Co2RecordError,
};
use simon_says_seeq_rust::text::parse_unsigned;

#[test]
fn unsigned_numbers_read_as_str_parse_reads_them() {
    assert_eq!(parse_unsigned("1958", 65535), Some(1958));
    assert_eq!(parse_unsigned("+07", 255), Some(7));
    assert_eq!(parse_unsigned("0", 255), Some(0));
    assert_eq!(parse_unsigned("255", 255), Some(255));
    assert_eq!(parse_unsigned("256", 255), None);
    assert_eq!(parse_unsigned("99999999999999999999999", 65535), None);
    assert_eq!(parse_unsigned("", 255), None);
    assert_eq!(parse_unsigned("+", 255), None);
    assert_eq!(parse_unsigned("-1", 255), None);
    assert_eq!(parse_unsigned("12a", 255), None);
    assert_eq!(parse_unsigned(" 12", 255), None);
    for s in ["0", "42", "+9", "65535", "65536", "x", ""] {
        assert_eq!(parse_unsigned(s, 65535), s.parse::<u16>().ok().map(|v| v as u64));
    }
}

#[test]
fn record_lines_are_split_and_trimmed() {
    assert!(matches!(split_record_line("   "), Co2Line::Blank));
    assert!(matches!(split_record_line(""), Co2Line::Blank));
    assert!(matches!(split_record_line("2020,1,2,2020.0"), Co2Line::TooFewFields));
    match split_record_line(" 2020, 1 ,2,2020.0027, 413.5 ,") {
        Co2Line::Fields(v) => {
            assert_eq!(v, vec!["2020", "1", "2", "2020.0027", "413.5", ""]);
        }
        other => panic!("not split: {:?}", other),
    }
    match split_record_line(",,,,") {
        Co2Line::Fields(v) => assert_eq!(v, vec!["", "", "", "", ""]),
        other => panic!("not split: {:?}", other),
    }
}

#[test]
fn record_dates_are_read_then_checked() {
    let d = parse_record_date("1958", "3", "29").unwrap();
    assert_eq!(d, Co2RecordDate { year: 1958, month: 3, day: 29 });
    assert!(check_record_date(d).is_ok());

    let e = parse_record_date("x", "3", "y").unwrap_err();
    assert_eq!(e.message(), "Invalid year: x");
    let e = parse_record_date("2000", "300", "y").unwrap_err();
    assert_eq!(e.message(), "Invalid month: 300");
    let e = parse_record_date("2000", "3", "y").unwrap_err();
    assert_eq!(e.message(), "Invalid day: y");

    let e = check_record_date(Co2RecordDate { year: 1900, month: 13, day: 0 }).unwrap_err();
    assert!(matches!(e, Co2RecordError::MonthOutOfRange(13)));
    assert_eq!(e.message(), "Month out of range: 13");
    let e = check_record_date(Co2RecordDate { year: 1900, month: 12, day: 0 }).unwrap_err();
    assert_eq!(e.message(), "Day out of range: 0");
    let e = check_record_date(Co2RecordDate { year: 1900, month: 12, day: 31 }).unwrap_err();
    assert_eq!(e.message(), "Year out of reasonable range: 1900");
    assert!(check_record_date(Co2RecordDate { year: 2100, month: 1, day: 1 }).is_ok());
    assert!(check_record_date(Co2RecordDate { year: 2101, month: 1, day: 1 }).is_err());
}
