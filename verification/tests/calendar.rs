use hiq_engine::calendar::{TradeCalendar, TradeDate};

fn day(s: &str) -> TradeDate {
    TradeDate::parse(s, "%Y-%m-%d").unwrap()
}

#[test]
fn parse_counts_days_from_year_one() {
    assert_eq!(TradeDate::parse("1970-01-01", "%Y-%m-%d"), Some(TradeDate::new(719_163)));
    assert_eq!(TradeDate::parse("2015-09-05", "%Y-%m-%d"), Some(TradeDate::new(735_846)));
    assert_eq!(TradeDate::parse("0001-01-01", "%Y-%m-%d"), Some(TradeDate::new(1)));
    assert_eq!(TradeDate::parse("20240229", "%Y%m%d"), Some(TradeDate::new(738_945)));
}

#[test]
fn parse_rejects_what_is_no_date() {
    assert_eq!(TradeDate::parse("2023-02-29", "%Y-%m-%d"), None);
    assert_eq!(TradeDate::parse("2024-13-01", "%Y-%m-%d"), None);
    assert_eq!(TradeDate::parse("20240105", "%Y-%m-%d"), None);
    assert_eq!(TradeDate::parse("2024-01-05", "%Y%m%d"), None);
    assert_eq!(TradeDate::parse("", "%Y-%m-%d"), None);
    assert_eq!(TradeDate::parse("2024-01-05", "%Q"), None);
}

#[test]
fn parse_does_not_hand_back_its_argument() {
    let d = TradeDate::parse("2024-01-05", "%Y-%m-%d").unwrap();
    assert_eq!(d.days(), 738_890);
    assert_ne!(d.days().to_string(), "2024-01-05");
}

#[test]
fn succ_is_the_next_day_and_stops_at_the_last() {
    assert_eq!(TradeDate::new(10).succ(), TradeDate::new(11));
    assert_eq!(TradeDate::new(-1).succ(), TradeDate::new(0));
    assert_eq!(TradeDate::new(i32::MAX).succ(), TradeDate::new(i32::MAX));
}

#[test]
fn from_dates_sorts_and_drops_repeats() {
    let dates = vec![day("2024-01-05"), day("2024-01-02"), day("2024-01-05"), day("2024-01-03")];
    let cal = TradeCalendar::from_dates(&dates);
    assert_eq!(cal.len(), 3);
    assert_eq!(cal.get(0), Some(day("2024-01-02")));
    assert_eq!(cal.get(1), Some(day("2024-01-03")));
    assert_eq!(cal.get(2), Some(day("2024-01-05")));
    assert_eq!(cal.get(3), None);
    assert_eq!(cal.last(), Some(day("2024-01-05")));
}

#[test]
fn insert_says_whether_the_day_was_new() {
    let mut cal = TradeCalendar::new();
    assert!(cal.is_empty());
    assert_eq!(cal.last(), None);
    assert!(cal.insert(TradeDate::new(5)));
    assert!(cal.insert(TradeDate::new(3)));
    assert!(!cal.insert(TradeDate::new(5)));
    assert!(cal.insert(TradeDate::new(4)));
    assert_eq!(cal.len(), 3);
    assert_eq!(cal.get(0), Some(TradeDate::new(3)));
    assert_eq!(cal.get(1), Some(TradeDate::new(4)));
    assert_eq!(cal.get(2), Some(TradeDate::new(5)));
}

#[test]
fn is_trade_date_knows_the_sessions_only() {
    let cal = TradeCalendar::from_dates(&vec![day("2024-01-02"), day("2024-01-03"), day("2024-01-05")]);
    assert!(cal.is_trade_date(day("2024-01-02")));
    assert!(cal.is_trade_date(day("2024-01-05")));
    assert!(!cal.is_trade_date(day("2024-01-04")));
    assert!(!cal.is_trade_date(day("2024-01-01")));
    assert!(!cal.is_trade_date(day("2024-01-06")));
    assert!(!TradeCalendar::new().is_trade_date(day("2024-01-02")));
}

#[test]
fn next_trade_date_is_the_earliest_session_after_the_day() {
    let cal = TradeCalendar::from_dates(&vec![
        day("2023-12-29"),
        day("2024-01-02"),
        day("2024-01-03"),
        day("2024-01-05"),
        day("2024-01-08"),
    ]);
    assert_eq!(cal.next_trade_date(day("2023-12-29")), day("2024-01-02"));
    assert_eq!(cal.next_trade_date(day("2023-12-31")), day("2024-01-02"));
    assert_eq!(cal.next_trade_date(day("2024-01-02")), day("2024-01-03"));
    assert_eq!(cal.next_trade_date(day("2024-01-03")), day("2024-01-05"));
    assert_eq!(cal.next_trade_date(day("2024-01-04")), day("2024-01-05"));
    assert_eq!(cal.next_trade_date(day("2024-01-05")), day("2024-01-08"));
    assert_eq!(cal.next_trade_date(day("2000-01-01")), day("2023-12-29"));
}

#[test]
fn next_trade_date_beyond_the_last_session_is_the_next_day() {
    let cal = TradeCalendar::from_dates(&vec![day("2024-01-05"), day("2024-01-08")]);
    assert_eq!(cal.next_trade_date(day("2024-01-08")), day("2024-01-09"));
    assert_eq!(cal.next_trade_date(day("2024-03-01")), day("2024-03-02"));
    assert_eq!(TradeCalendar::new().next_trade_date(day("2024-01-05")), day("2024-01-06"));
}

#[test]
fn next_trade_date_is_strictly_later_for_every_day_but_the_last() {
    let cal = TradeCalendar::from_dates(&vec![TradeDate::new(-3), TradeDate::new(0), TradeDate::new(7)]);
    for n in -10..20 {
        let d = TradeDate::new(n);
        let next = cal.next_trade_date(d);
        assert!(next.days() > d.days());
        for k in (n + 1)..next.days() {
            assert!(!cal.is_trade_date(TradeDate::new(k)));
        }
    }
    assert_eq!(cal.next_trade_date(TradeDate::new(i32::MAX)), TradeDate::new(i32::MAX));
    assert_eq!(cal.next_trade_date(TradeDate::new(i32::MAX - 1)), TradeDate::new(i32::MAX));
}

#[test]
fn parse_takes_any_text_and_any_format() {
    let texts = [
        "", " ", "2024-01-05", " 2024-01-05", "2024-01-05 ", "２０２４-０１-０５", "二〇二四年一月五日",
        "+2024-01-05", "-2024-01-05", "+262142-12-31", "+262143-01-01", "-262143-01-01",
        "99999999999999999999999999-01-05", "2024-01-05T10:00:00", "2024-W01-5", "%Y-%m-%d",
        "20240105", "2024015", "é", "\u{0}", "2024\u{2212}01\u{2212}05",
    ];
    let formats = [
        "%Y-%m-%d", "%Y%m%d", "", "%", "%%", "%Q", "%Y", "%d", "%m/%d/%y", "%s", "%+", "%c", "%z",
        "%3f", "%.3f", "%:::z", "%#z", "%G-W%V-%u", "%j", "%A %B", "%-Y-%_m-%0d", "é%Yé", "%é",
        "%Y-%m-%d%Y-%m-%d",
    ];
    for text in texts {
        for format in formats {
            if let Some(d) = TradeDate::parse(text, format) {
                assert!(d.days() > -100_000_000 && d.days() < 100_000_000);
            }
        }
    }
    assert_eq!(TradeDate::parse(" 2024-01-05", "%Y-%m-%d"), Some(TradeDate::new(738_890)));
    assert_eq!(TradeDate::parse("99999999999999999999999999-01-05", "%Y-%m-%d"), None);
    assert_eq!(TradeDate::parse("2024-01-05T10:00:00", "%Y-%m-%d"), None);
    assert_eq!(TradeDate::parse("2024-01-052024-01-05", "%Y-%m-%d%Y-%m-%d"), Some(TradeDate::new(738_890)));
    assert_eq!(TradeDate::parse("2024-01-052024-01-06", "%Y-%m-%d%Y-%m-%d"), None);
}
