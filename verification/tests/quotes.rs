use chrono::{DateTime, Datelike, NaiveDate, Timelike, Utc};
use portfolio_tracker::calendar::{CalendarDate, UtcDateTime};
use portfolio_tracker::infrastructure::quotes::{
    date_of, from_timestamp_to_datetime, get_latest_ticker_info, get_stocks_dividends,
    get_stocks_name, get_stocks_values, latest_dividend, next_request, next_search,
    read_timestamp, ticker_extensive_search, ticker_search, tickers_from_portfolio, wants_values,
    Dividend, IdOrSymbol, NamedLookup, PortfolioTickerView, ProviderError, Quote, QuoteHistory,
    SearchedTicker, TickerLookup, TickerView,
};
use portfolio_tracker::infrastructure::reply::{Body, Reply};
use portfolio_tracker::models::ticker::Ticker;

fn moment(year: i32, month: u32, day: u32, hour: u32, minute: u32, second: u32) -> UtcDateTime {
    UtcDateTime { date: CalendarDate { year, month, day }, hour, minute, second }
}

fn as_library_moment(datetime: DateTime<Utc>) -> UtcDateTime {
    moment(
        datetime.year(),
        datetime.month(),
        datetime.day(),
        datetime.hour(),
        datetime.minute(),
        datetime.second(),
    )
}

fn found(symbol: &str) -> SearchedTicker {
    SearchedTicker {
        symbol: String::from(symbol),
        short_name: format!("{} short", symbol),
        long_name: format!("{} long", symbol),
    }
}

fn failure(kind: &str, message: &str) -> ProviderError {
    ProviderError { kind: String::from(kind), message: String::from(message) }
}

fn quote(timestamp: u64, open: f64) -> Quote<f64> {
    Quote { timestamp, open, high: open + 2.0, low: open - 1.0, volume: 1000, close: open + 1.0 }
}

fn text<T>(status: u16, text: &str) -> Reply<T> {
    Reply { status, body: Body::Text(String::from(text)) }
}

#[allow(deprecated)]
#[test]
fn test_from_timestamp_to_datetime() {
    //01.01.2022. 00:00:00
    let timestamp = 1640995200;
    let timestamp_string = timestamp.to_string();

    let datetime: DateTime<Utc> =
        DateTime::<Utc>::from_utc(NaiveDate::from_ymd(2022, 1, 1).and_hms(0, 0, 0), Utc);

    assert_eq!(from_timestamp_to_datetime(timestamp_string), as_library_moment(datetime));
}

#[test]
fn epoch_second_1640995200_is_new_year_2022() {
    assert_eq!(from_timestamp_to_datetime(String::from("1640995200")), moment(2022, 1, 1, 0, 0, 0));
    assert_eq!(read_timestamp("1640995200"), Some(moment(2022, 1, 1, 0, 0, 0)));
    assert_eq!(date_of(1640995200), Some(moment(2022, 1, 1, 0, 0, 0)));
}

#[test]
fn time_of_day_is_counted_from_midnight() {
    assert_eq!(date_of(0), Some(moment(1970, 1, 1, 0, 0, 0)));
    assert_eq!(date_of(86_399), Some(moment(1970, 1, 1, 23, 59, 59)));
    assert_eq!(date_of(86_400), Some(moment(1970, 1, 2, 0, 0, 0)));
    assert_eq!(date_of(1_709_210_096), Some(moment(2024, 2, 29, 12, 34, 56)));
    assert_eq!(from_timestamp_to_datetime(String::from("-1")), moment(1969, 12, 31, 23, 59, 59));
    assert_eq!(read_timestamp("-86401"), Some(moment(1969, 12, 30, 23, 59, 59)));
}

#[test]
fn timestamps_agree_with_chrono() {
    for seconds in [0i64, 1, 59, 3600, 951_782_400, 1_640_995_199, 4_102_444_800, -62_135_596_800] {
        let expected = DateTime::from_timestamp(seconds, 0).map(as_library_moment);
        assert_eq!(read_timestamp(&seconds.to_string()), expected);
    }
}

#[test]
fn timestamp_must_be_a_number_with_a_date() {
    assert_eq!(read_timestamp(""), None);
    assert_eq!(read_timestamp("yesterday"), None);
    assert_eq!(read_timestamp("1640995200.5"), None);
    assert_eq!(read_timestamp("9223372036854775807"), None);
    assert_eq!(read_timestamp("9223372036854775808"), None);
    assert_eq!(date_of(u64::MAX), None);
    assert_eq!(date_of(1 << 63), None);
    assert_eq!(date_of(i64::MAX.unsigned_abs()), None);
}

fn chrono_date(day: i64) -> Option<CalendarDate> {
    let from_common_era = i32::try_from(day + 719_163).ok()?;
    NaiveDate::from_num_days_from_ce_opt(from_common_era)
        .map(|date| CalendarDate { year: date.year(), month: date.month(), day: date.day() })
}

#[test]
fn calendar_agrees_with_chrono_day_by_day() {
    // Every day of eight centuries around the epoch.
    let mut day: i64 = -150_000;
    while day <= 150_000 {
        assert_eq!(CalendarDate::of_day(day), chrono_date(day), "day {}", day);
        day += 1;
    }
}

#[test]
fn calendar_agrees_with_chrono_over_its_whole_range() {
    let mut day: i64 = -96_500_000;
    while day <= 96_500_000 {
        assert_eq!(CalendarDate::of_day(day), chrono_date(day), "day {}", day);
        day += 9_973;
    }
}

#[test]
fn calendar_ends_where_the_years_of_chrono_end() {
    let first = CalendarDate { year: -262_143, month: 1, day: 1 };
    let last = CalendarDate { year: 262_142, month: 12, day: 31 };
    let first_day = NaiveDate::MIN.signed_duration_since(NaiveDate::default()).num_days();
    let last_day = NaiveDate::MAX.signed_duration_since(NaiveDate::default()).num_days();
    assert_eq!(CalendarDate::of_day(first_day), Some(first));
    assert_eq!(CalendarDate::of_day(first_day - 1), None);
    assert_eq!(CalendarDate::of_day(last_day), Some(last));
    assert_eq!(CalendarDate::of_day(last_day + 1), None);
    assert_eq!(CalendarDate::of_day(i64::MAX), None);
    assert_eq!(CalendarDate::of_day(i64::MIN), None);
    for seconds in [last_day * 86_400 + 86_399, first_day * 86_400] {
        let expected = DateTime::from_timestamp(seconds, 0).map(as_library_moment);
        assert!(expected.is_some());
        assert_eq!(read_timestamp(&seconds.to_string()), expected);
    }
    for seconds in [(last_day + 1) * 86_400, first_day * 86_400 - 1] {
        assert_eq!(DateTime::from_timestamp(seconds, 0), None);
        assert_eq!(read_timestamp(&seconds.to_string()), None);
    }
}

#[test]
fn calendar_knows_the_leap_years() {
    let date = |year, month, day| Some(CalendarDate { year, month, day });
    assert_eq!(CalendarDate::of_day(0), date(1970, 1, 1));
    assert_eq!(CalendarDate::of_day(-1), date(1969, 12, 31));
    assert_eq!(CalendarDate::of_day(11_016), date(2000, 2, 29));
    assert_eq!(CalendarDate::of_day(11_017), date(2000, 3, 1));
    assert_eq!(CalendarDate::of_day(-25_509), date(1900, 2, 28));
    assert_eq!(CalendarDate::of_day(-25_508), date(1900, 3, 1));
    assert_eq!(CalendarDate::of_day(18_993), date(2022, 1, 1));
    assert_eq!(CalendarDate::of_day(-719_468), date(0, 3, 1));
    assert_eq!(CalendarDate::of_day(-719_469), date(0, 2, 29));
    assert_eq!(CalendarDate::of_day(-719_528), date(0, 1, 1));
    assert_eq!(CalendarDate::of_day(-719_529), date(-1, 12, 31));
}

#[test]
fn provider_is_asked_until_a_search_gives_no_name() {
    assert_eq!(next_search(2, &vec![]), Some(0));
    assert_eq!(next_search(2, &vec![Ok(vec![found("AAPL")])]), Some(1));
    assert_eq!(next_search(2, &vec![Ok(vec![found("AAPL")]), Ok(vec![found("MSFT")])]), None);
    assert_eq!(next_search(0, &vec![]), None);
    assert_eq!(next_search(3, &vec![Ok(vec![found("AAPL")]), Err(failure("a", "x"))]), None);
    assert_eq!(next_search(3, &vec![Ok(vec![])]), None);
    assert_eq!(next_search(3, &vec![Err(failure("a", "x")), Ok(vec![found("AAPL")])]), None);
}

#[test]
fn provider_is_asked_until_an_answer_fails() {
    assert_eq!(next_request::<Quote<f64>>(2, &vec![]), Some(0));
    assert_eq!(next_request(2, &vec![Ok(quote(1, 1.0))]), Some(1));
    assert_eq!(next_request(2, &vec![Ok(quote(1, 1.0)), Ok(quote(2, 2.0))]), None);
    assert_eq!(next_request(3, &vec![Ok(quote(1, 1.0)), Err(failure("a", "x"))]), None);
    assert_eq!(next_request::<Quote<f64>>(1, &vec![Err(failure("a", "x"))]), None);
    assert_eq!(next_request::<Quote<f64>>(0, &vec![]), None);
}

#[test]
fn values_are_asked_for_once_the_names_are_there() {
    assert!(wants_values(&Ok(vec![String::from("Apple")])));
    assert!(wants_values(&Ok(vec![])));
    assert!(!wants_values(&Err(failure("a", "x"))));
}

#[test]
fn search_replies_with_the_first_security() {
    assert_eq!(
        ticker_search(Ok(vec![found("AAPL"), found("APLE")])),
        Reply { status: 200, body: Body::Json(found("AAPL")) }
    );
    assert_eq!(ticker_search(Ok(vec![])), text(400, "Ticker does not exist."));
    assert_eq!(ticker_search(Err(failure("FetchFailed", "no"))), text(400, "Ticker does not exist."));
}

#[test]
fn extended_search_replies_with_every_security() {
    assert_eq!(
        ticker_extensive_search(Ok(vec![found("AAPL"), found("APLE")])),
        Reply { status: 200, body: Body::Json(vec![found("AAPL"), found("APLE")]) }
    );
    assert_eq!(ticker_extensive_search(Ok(vec![])), Reply { status: 200, body: Body::Json(vec![]) });
    assert_eq!(
        ticker_extensive_search(Err(failure("FetchFailed", "no"))),
        text(400, "Ticker does not exist.")
    );
}

#[test]
fn lookup_keeps_an_identifier_of_36_bytes() {
    let id = "7d0c0e4e-5f0a-4b6e-9d63-0a8f5a3f9b11";
    let lookup = get_latest_ticker_info(IdOrSymbol { id: String::from(id), symbol: String::from("AAPL") });
    assert_eq!(lookup, TickerLookup { id: String::from(id), symbol: String::from("AAPL") });
    for other in ["", "short", "7d0c0e4e-5f0a-4b6e-9d63-0a8f5a3f9b11x"] {
        let lookup =
            get_latest_ticker_info(IdOrSymbol { id: String::from(other), symbol: String::from("AAPL") });
        assert_eq!(lookup, TickerLookup { id: String::new(), symbol: String::from("AAPL") });
    }
    // The length is counted in bytes: 18 characters of two bytes each are kept.
    let wide = "\u{e9}".repeat(18);
    let lookup = get_latest_ticker_info(IdOrSymbol { id: wide.clone(), symbol: String::from("A") });
    assert_eq!(lookup.id, wide);
    let narrow = "\u{e9}".repeat(36);
    let lookup = get_latest_ticker_info(IdOrSymbol { id: narrow, symbol: String::from("A") });
    assert_eq!(lookup.id, "");
}

#[test]
fn lookup_takes_the_name_of_the_first_security() {
    let lookup = TickerLookup { id: String::from("id"), symbol: String::from("AAPL") };
    assert_eq!(
        lookup.clone().named::<f64>(Ok(vec![found("AAPL"), found("APLE")])),
        Ok(NamedLookup {
            id: String::from("id"),
            name: String::from("AAPL long"),
            symbol: String::from("AAPL"),
        })
    );
    assert_eq!(lookup.clone().named::<f64>(Ok(vec![])), Err(text(400, "Ticker does not exist.")));
    assert_eq!(
        lookup.named::<f64>(Err(failure("FetchFailed(\"404\")", "fetching failed"))),
        Err(text(400, "Ticker does not exist :FetchFailed(\"404\")"))
    );
}

fn named_lookup() -> NamedLookup {
    NamedLookup { id: String::from("id"), name: String::from("Apple Inc."), symbol: String::from("AAPL") }
}

#[test]
fn view_shows_the_latest_quote_and_the_last_dividend() {
    let history = QuoteHistory {
        last_quote: Ok(quote(1_640_995_200, 10.0)),
        dividends: Ok(vec![
            Dividend { amount: 0.2, date: 1_600_000_000 },
            Dividend { amount: 0.25, date: 1_609_459_200 },
        ]),
    };
    assert_eq!(
        named_lookup().viewed(Ok(history), 0.0),
        Some(Reply {
            status: 200,
            body: Body::Json(TickerView {
                id: String::from("id"),
                name: String::from("Apple Inc."),
                symbol: String::from("AAPL"),
                dividend_value: 0.25,
                dividend_date: moment(2021, 1, 1, 0, 0, 0),
                open: 10.0,
                high: 12.0,
                low: 9.0,
                volume: 1000,
                close: 11.0,
                date: moment(2022, 1, 1, 0, 0, 0),
            }),
        })
    );
}

#[test]
fn view_without_dividends_shows_zero_at_the_epoch() {
    let history = QuoteHistory { last_quote: Ok(quote(1_640_995_200, 10.0)), dividends: Ok(vec![]) };
    match named_lookup().viewed(Ok(history), 0.0) {
        Some(Reply { status: 200, body: Body::Json(view) }) => {
            assert_eq!(view.dividend_value, 0.0);
            assert_eq!(view.dividend_date, moment(1970, 1, 1, 0, 0, 0));
        }
        other => panic!("{:?}", other),
    }
}

#[test]
fn view_passes_the_provider_failures_through() {
    assert_eq!(
        named_lookup().viewed::<f64>(Err(failure("k", "connection failed")), 0.0),
        Some(text(400, "Response  connection failed"))
    );
    let history =
        QuoteHistory { last_quote: Err(failure("k", "empty data set")), dividends: Ok(vec![]) };
    assert_eq!(named_lookup().viewed::<f64>(Ok(history), 0.0), Some(text(400, "Quote  empty data set")));
    let history = QuoteHistory {
        last_quote: Ok(quote(1, 1.0)),
        dividends: Err(failure("k", "inconsistent data")),
    };
    assert_eq!(named_lookup().viewed(Ok(history), 0.0), Some(text(400, "Dividend  inconsistent data")));
    let history = QuoteHistory {
        last_quote: Err(failure("k", "first")),
        dividends: Err(failure("k", "second")),
    };
    assert_eq!(named_lookup().viewed::<f64>(Ok(history), 0.0), Some(text(400, "Quote  first")));
}

#[test]
fn view_needs_timestamps_with_a_date() {
    let history = QuoteHistory { last_quote: Ok(quote(u64::MAX, 10.0)), dividends: Ok(vec![]) };
    assert_eq!(named_lookup().viewed(Ok(history), 0.0), None);
    let history = QuoteHistory {
        last_quote: Ok(quote(1, 10.0)),
        dividends: Ok(vec![Dividend { amount: 1.0, date: u64::MAX }]),
    };
    assert_eq!(named_lookup().viewed(Ok(history), 0.0), None);
}

#[test]
fn last_dividend_or_none() {
    let all = vec![Dividend { amount: 1u32, date: 5 }, Dividend { amount: 2, date: 9 }];
    assert_eq!(latest_dividend(&all, 0), Dividend { amount: 2, date: 9 });
    assert_eq!(latest_dividend(&vec![], 7u32), Dividend { amount: 7, date: 0 });
}

#[test]
fn names_stop_at_the_first_search_without_one() {
    assert_eq!(
        get_stocks_name(&vec![Ok(vec![found("AAPL"), found("X")]), Ok(vec![found("MSFT")])]),
        Ok(vec![String::from("AAPL long"), String::from("MSFT long")])
    );
    assert_eq!(get_stocks_name(&vec![]), Ok(vec![]));
    assert_eq!(
        get_stocks_name(&vec![
            Ok(vec![found("AAPL")]),
            Err(failure("a", "first")),
            Err(failure("b", "second")),
        ]),
        Err(failure("a", "first"))
    );
    assert_eq!(
        get_stocks_name(&vec![Ok(vec![]), Err(failure("a", "first"))]),
        Err(ProviderError::nothing_found())
    );
    assert_eq!(
        ProviderError::nothing_found(),
        failure("EmptyDataSet", "yahoo! finance returned an empty data set")
    );
}

#[test]
fn values_stop_at_the_first_failure() {
    assert_eq!(
        get_stocks_values(&vec![Ok(quote(1, 1.0)), Ok(quote(2, 2.0))]),
        Ok(vec![quote(1, 1.0), quote(2, 2.0)])
    );
    assert_eq!(
        get_stocks_values(&vec![Ok(quote(1, 1.0)), Err(failure("a", "x")), Err(failure("b", "y"))]),
        Err(failure("a", "x"))
    );
    assert_eq!(get_stocks_values::<f64>(&vec![]), Ok(vec![]));
}

#[test]
fn dividends_are_the_last_of_each_ticker() {
    let first = vec![Dividend { amount: 0.1, date: 10 }, Dividend { amount: 0.2, date: 20 }];
    assert_eq!(
        get_stocks_dividends(&vec![Ok(first.clone()), Ok(vec![])], 0.0),
        Ok(vec![Dividend { amount: 0.2, date: 20 }, Dividend { amount: 0.0, date: 0 }])
    );
    assert_eq!(
        get_stocks_dividends(&vec![Ok(first), Err(failure("a", "x")), Ok(vec![])], 0.0),
        Err(failure("a", "x"))
    );
}

fn held(id: &str, symbol: &str) -> Ticker {
    Ticker {
        id: String::from(id),
        name: String::from(symbol),
        portfolio_id: String::from("folio-1"),
        is_deleted: false,
    }
}

#[test]
fn portfolio_view_shows_each_ticker() {
    let tickers = vec![held("t1", "AAPL"), held("t2", "MSFT")];
    let names = Ok(vec![String::from("Apple Inc."), String::from("Microsoft")]);
    let quotes = Ok(vec![quote(1_640_995_200, 10.0), quote(86_400, 20.0)]);
    assert_eq!(
        tickers_from_portfolio(&tickers, names, quotes),
        Some(Reply {
            status: 200,
            body: Body::Json(vec![
                PortfolioTickerView {
                    id: String::from("t1"),
                    name: String::from("Apple Inc."),
                    symbol: String::from("AAPL"),
                    open: 10.0,
                    date: moment(2022, 1, 1, 0, 0, 0),
                },
                PortfolioTickerView {
                    id: String::from("t2"),
                    name: String::from("Microsoft"),
                    symbol: String::from("MSFT"),
                    open: 20.0,
                    date: moment(1970, 1, 2, 0, 0, 0),
                },
            ]),
        })
    );
    assert_eq!(
        tickers_from_portfolio::<f64>(&vec![], Ok(vec![]), Ok(vec![])),
        Some(Reply { status: 200, body: Body::Json(vec![]) })
    );
}

#[test]
fn portfolio_view_reports_names_before_values() {
    let tickers = vec![held("t1", "AAPL")];
    assert_eq!(
        tickers_from_portfolio::<f64>(&tickers, Err(failure("a", "no names")), Err(failure("b", "no values"))),
        Some(text(400, "Ticker names: no names"))
    );
    assert_eq!(
        tickers_from_portfolio::<f64>(&tickers, Ok(vec![String::from("Apple")]), Err(failure("b", "no values"))),
        Some(text(400, "Ticker values: no values"))
    );
}

#[test]
fn portfolio_view_needs_one_name_and_one_quote_for_each_ticker() {
    let tickers = vec![held("t1", "AAPL"), held("t2", "MSFT")];
    assert_eq!(
        tickers_from_portfolio(&tickers, Ok(vec![String::from("Apple")]), Ok(vec![quote(1, 1.0), quote(2, 2.0)])),
        None
    );
    assert_eq!(
        tickers_from_portfolio(
            &tickers,
            Ok(vec![String::from("Apple"), String::from("Microsoft")]),
            Ok(vec![quote(1, 1.0)])
        ),
        None
    );
    assert_eq!(
        tickers_from_portfolio(
            &tickers,
            Ok(vec![String::from("Apple"), String::from("Microsoft")]),
            Ok(vec![quote(1, 1.0), quote(u64::MAX, 2.0)])
        ),
        None
    );
}
