//! Market data: what the provider's answers become in a reply.
//!
//! The provider is asked outside this crate. Each function here takes what it
//! answered and decides what follows. Prices pass through untouched, so their
//! type `P` is left open.

use crate::adapters::utc_from_timestamp;
use crate::calendar::{utc_moment, UtcDateTime};
use crate::infrastructure::reply::{Body, Reply, BAD_REQUEST, OK};
use crate::models::ticker::Ticker;
use crate::rows::first_where;
use crate::text::{decimal_i64, parse_i64};
use vstd::prelude::*;
use vstd::string::*;
use vstd::utf8::encode_utf8;

verus! {

/// A security that a search found.
#[derive(Debug, Clone, PartialEq, Eq)]
pub struct SearchedTicker {
    pub symbol: String,
    pub short_name: String,
    pub long_name: String,
}

/// A [`SearchedTicker`] as a mathematical value.
pub struct SearchedTickerView {
    pub symbol: Seq<char>,
    pub short_name: Seq<char>,
    pub long_name: Seq<char>,
}

impl View for SearchedTicker {
    type V = SearchedTickerView;

    open spec fn view(&self) -> SearchedTickerView {
        SearchedTickerView {
            symbol: self.symbol@,
            short_name: self.short_name@,
            long_name: self.long_name@,
        }
    }
}

/// The prices of one trading period.
#[derive(Debug, Clone, Copy, PartialEq)]
pub struct Quote<P> {
    /// When the period began, in seconds of the Unix epoch.
    pub timestamp: u64,
    pub open: P,
    pub high: P,
    pub low: P,
    pub volume: u64,
    pub close: P,
}

/// A dividend and the day on which it was recorded, in seconds of the Unix
/// epoch.
#[derive(Debug, Clone, Copy, PartialEq)]
pub struct Dividend<P> {
    pub amount: P,
    pub date: u64,
}

/// Why the provider gave no answer, in the two forms in which replies show
/// it.
#[derive(Debug, Clone, PartialEq, Eq)]
pub struct ProviderError {
    /// The short form, which names the kind of failure.
    pub kind: String,
    /// The sentence that describes the failure.
    pub message: String,
}

/// What a request for the latest prices of a ticker names: the ticker's
/// identifier in the store, and its symbol.
#[derive(Debug, Clone, PartialEq, Eq)]
pub struct IdOrSymbol {
    pub id: String,
    pub symbol: String,
}

/// The latest prices of a ticker and its last dividend.
#[derive(Debug, Clone, PartialEq)]
pub struct TickerView<P> {
    pub id: String,
    pub name: String,
    pub symbol: String,
    pub dividend_value: P,
    pub dividend_date: UtcDateTime,
    pub open: P,
    pub high: P,
    pub low: P,
    pub volume: u64,
    pub close: P,
    pub date: UtcDateTime,
}

/// The latest opening price of a ticker in a portfolio.
#[derive(Debug, Clone, PartialEq)]
pub struct PortfolioTickerView<P> {
    pub id: String,
    pub name: String,
    pub symbol: String,
    pub open: P,
    pub date: UtcDateTime,
}

/// How many characters an identifier of the store has.
pub const ID_LENGTH: usize = 36;

/// The moment that `timestamp` writes as a decimal number of seconds of the
/// Unix epoch; `None` where it writes no such number, or one without a date.
pub open spec fn moment_written(timestamp: Seq<char>) -> Option<UtcDateTime> {
    match decimal_i64(timestamp) {
        Some(seconds) => utc_moment(seconds as int),
        None => None,
    }
}

/// Reads a timestamp written in decimal, where it writes one that has a
/// date: see [`moment_written`].
pub fn read_timestamp(timestamp: &str) -> (moment: Option<UtcDateTime>)
    ensures
        moment == moment_written(timestamp@),
{
    match parse_i64(timestamp) {
        Some(seconds) => utc_from_timestamp(seconds),
        None => None,
    }
}

/// The moment that a timestamp writes. The timestamp must write one: a
/// decimal number of seconds that has a date, which [`read_timestamp`] tells.
pub fn from_timestamp_to_datetime(timestamp: String) -> (moment: UtcDateTime)
    requires
        moment_written(timestamp@) is Some,
    ensures
        moment_written(timestamp@) == Some(moment),
{
    read_timestamp(timestamp.as_str()).unwrap()
}

/// The moment of second `timestamp` of the Unix epoch, where it has one.
pub open spec fn moment_of(timestamp: u64) -> Option<UtcDateTime> {
    if timestamp <= i64::MAX {
        utc_moment(timestamp as int)
    } else {
        None
    }
}

/// Dates a timestamp of the provider: see [`moment_of`].
pub fn date_of(timestamp: u64) -> (moment: Option<UtcDateTime>)
    ensures
        moment == moment_of(timestamp),
{
    if timestamp <= 0x7fff_ffff_ffff_ffff {
        utc_from_timestamp(timestamp as i64)
    } else {
        None
    }
}

impl SearchedTicker {
    /// A copy of this record.
    pub fn duplicate(&self) -> (copy: SearchedTicker)
        ensures
            copy@ == self@,
    {
        SearchedTicker {
            symbol: self.symbol.clone(),
            short_name: self.short_name.clone(),
            long_name: self.long_name.clone(),
        }
    }
}

/// Replies to a search with the first security found. A search that failed
/// and one that found nothing are answered alike.
pub fn ticker_search(found: Result<Vec<SearchedTicker>, ProviderError>) -> (r: Reply<
    SearchedTicker,
>)
    ensures
        match found {
            Ok(items) if items@.len() > 0 => {
                &&& r.status == OK
                &&& r.body matches Body::Json(first)
                &&& first@ == items@[0]@
            },
            _ => r.says(BAD_REQUEST, "Ticker does not exist."@),
        },
{
    let results = match found {
        Ok(result) => result,
        Err(_) => {
            return Reply::message(BAD_REQUEST, "Ticker does not exist.");
        },
    };
    if results.len() == 0 {
        return Reply::message(BAD_REQUEST, "Ticker does not exist.");
    }
    Reply::json(OK, results[0].duplicate())
}

/// The securities of `items` as mathematical values.
pub open spec fn searched_views(items: Seq<SearchedTicker>) -> Seq<SearchedTickerView> {
    items.map_values(|t: SearchedTicker| t@)
}

/// Replies to a search with every security found, in the provider's order.
pub fn ticker_extensive_search(found: Result<Vec<SearchedTicker>, ProviderError>) -> (r: Reply<
    Vec<SearchedTicker>,
>)
    ensures
        match found {
            Ok(items) => {
                &&& r.status == OK
                &&& r.body matches Body::Json(all)
                &&& searched_views(all@) == searched_views(items@)
            },
            Err(_) => r.says(BAD_REQUEST, "Ticker does not exist."@),
        },
{
    let items = match found {
        Ok(result) => result,
        Err(_) => {
            return Reply::message(BAD_REQUEST, "Ticker does not exist.");
        },
    };
    let mut tickers: Vec<SearchedTicker> = Vec::new();
    let n = items.len();
    let mut i: usize = 0;
    while i < n
        invariant
            n == items@.len(),
            i <= n,
            tickers@.len() == i,
            forall|j: int| 0 <= j < i ==> (#[trigger] tickers@[j])@ == items@[j]@,
        decreases n - i,
    {
        tickers.push(items[i].duplicate());
        i += 1;
    }
    assert(searched_views(tickers@) =~= searched_views(items@));
    Reply::json(OK, tickers)
}

impl ProviderError {
    /// A copy of this error.
    pub fn duplicate(&self) -> (copy: ProviderError)
        ensures
            copy.same(*self),
    {
        ProviderError { kind: self.kind.clone(), message: self.message.clone() }
    }

    /// Whether two errors read alike.
    pub open spec fn same(self, other: ProviderError) -> bool {
        self.kind@ == other.kind@ && self.message@ == other.message@
    }

    /// Whether this is the error for an answer that holds nothing.
    pub open spec fn is_nothing_found(self) -> bool {
        &&& self.kind@ == "EmptyDataSet"@
        &&& self.message@ == "yahoo! finance returned an empty data set"@
    }

    /// The error for an answer that holds nothing.
    pub fn nothing_found() -> (error: ProviderError)
        ensures
            error.is_nothing_found(),
    {
        ProviderError {
            kind: String::from_str("EmptyDataSet"),
            message: String::from_str("yahoo! finance returned an empty data set"),
        }
    }
}

/// A lookup of the latest prices that waits for the search to come back.
#[derive(Debug, Clone, PartialEq, Eq)]
pub struct TickerLookup {
    pub id: String,
    pub symbol: String,
}

/// A lookup of the latest prices that knows the security's name and waits
/// for the prices.
#[derive(Debug, Clone, PartialEq, Eq)]
pub struct NamedLookup {
    pub id: String,
    pub name: String,
    pub symbol: String,
}

/// What the provider's answer for a range of prices holds: its latest valid
/// quote, and the dividends of the range from the oldest to the newest.
#[derive(Debug)]
pub struct QuoteHistory<P> {
    pub last_quote: Result<Quote<P>, ProviderError>,
    pub dividends: Result<Vec<Dividend<P>>, ProviderError>,
}

/// The interval of the prices that are asked for.
pub const INTERVAL: &'static str = "1d";

/// The range of the prices that are asked for.
pub const RANGE: &'static str = "6mo";

/// How many bytes `text` takes in UTF-8.
pub open spec fn byte_length(text: Seq<char>) -> usize {
    encode_utf8(text).len() as usize
}

/// Begins the lookup of the latest prices of a ticker. An identifier that
/// does not have the length of one, counted in bytes, is replaced by the
/// empty text. Next the provider is to be searched for the symbol.
pub fn get_latest_ticker_info(id_or_symbol: IdOrSymbol) -> (lookup: TickerLookup)
    ensures
        lookup.symbol@ == id_or_symbol.symbol@,
        lookup.id@ == if byte_length(id_or_symbol.id@) == ID_LENGTH {
            id_or_symbol.id@
        } else {
            Seq::empty()
        },
{
    let mut id = id_or_symbol.id;
    if id.as_str().len() != ID_LENGTH {
        id = String::new();
    }
    TickerLookup { id, symbol: id_or_symbol.symbol }
}

/// `prefix` followed by `rest`.
fn joined(prefix: &str, rest: &String) -> (text: String)
    ensures
        text@ == prefix@ + rest@,
{
    let mut text = String::from_str(prefix);
    text.append(rest.as_str());
    text
}

/// The last dividend of `dividends`, or one of `no_dividend` at second 0
/// where there is none.
pub open spec fn last_dividend<P>(dividends: Seq<Dividend<P>>, no_dividend: P) -> Dividend<P> {
    if dividends.len() > 0 {
        dividends.last()
    } else {
        Dividend { amount: no_dividend, date: 0 }
    }
}

/// Picks the last dividend: see [`last_dividend`].
pub fn latest_dividend<P: Copy>(dividends: &Vec<Dividend<P>>, no_dividend: P) -> (r: Dividend<P>)
    ensures
        r == last_dividend(dividends@, no_dividend),
{
    if dividends.len() > 0 {
        dividends[dividends.len() - 1]
    } else {
        Dividend { amount: no_dividend, date: 0 }
    }
}

impl TickerLookup {
    /// Takes the answer to the search. The security's name is the long name
    /// of the first one found; with it the prices are to be asked for. A search
    /// that failed is answered with its kind of failure, one that found
    /// nothing as an unknown ticker.
    pub fn named<P>(self, found: Result<Vec<SearchedTicker>, ProviderError>) -> (r: Result<
        NamedLookup,
        Reply<TickerView<P>>,
    >)
        ensures
            match found {
                Ok(items) => if items@.len() > 0 {
                    &&& r matches Ok(next)
                    &&& next.id@ == self.id@
                    &&& next.symbol@ == self.symbol@
                    &&& next.name@ == items@[0].long_name@
                } else {
                    r matches Err(reply) && reply.says(BAD_REQUEST, "Ticker does not exist."@)
                },
                Err(error) => r matches Err(reply) && reply.says(
                    BAD_REQUEST,
                    "Ticker does not exist :"@ + error.kind@,
                ),
            },
    {
        match found {
            Ok(items) => {
                if items.len() > 0 {
                    Ok(
                        NamedLookup {
                            id: self.id,
                            name: items[0].long_name.clone(),
                            symbol: self.symbol,
                        },
                    )
                } else {
                    Err(Reply::message(BAD_REQUEST, "Ticker does not exist."))
                }
            },
            Err(error) => Err(
                Reply::text(BAD_REQUEST, joined("Ticker does not exist :", &error.kind)),
            ),
        }
    }
}

impl NamedLookup {
    /// Takes the answer for the range of prices and replies. A failure of the
    /// request, of the latest quote or of the dividends is answered with its
    /// message, in that order. Otherwise the reply shows the latest quote and
    /// the last dividend, which is `no_dividend` at second 0 where the range
    /// holds none. `None` where one of the two timestamps has no date.
    pub fn viewed<P: Copy>(
        self,
        answer: Result<QuoteHistory<P>, ProviderError>,
        no_dividend: P,
    ) -> (r: Option<Reply<TickerView<P>>>)
        ensures
            match answer {
                Err(error) => r matches Some(reply) && reply.says(
                    BAD_REQUEST,
                    "Response  "@ + error.message@,
                ),
                Ok(history) => match history.last_quote {
                    Err(error) => r matches Some(reply) && reply.says(
                        BAD_REQUEST,
                        "Quote  "@ + error.message@,
                    ),
                    Ok(quote) => match history.dividends {
                        Err(error) => r matches Some(reply) && reply.says(
                            BAD_REQUEST,
                            "Dividend  "@ + error.message@,
                        ),
                        Ok(dividends) => {
                            let dividend = last_dividend(dividends@, no_dividend);
                            match (moment_of(dividend.date), moment_of(quote.timestamp)) {
                                (Some(dividend_date), Some(date)) => {
                                    &&& r matches Some(reply)
                                    &&& reply.status == OK
                                    &&& reply.body matches Body::Json(view)
                                    &&& view.id@ == self.id@
                                    &&& view.name@ == self.name@
                                    &&& view.symbol@ == self.symbol@
                                    &&& view.dividend_value == dividend.amount
                                    &&& view.dividend_date == dividend_date
                                    &&& view.open == quote.open
                                    &&& view.high == quote.high
                                    &&& view.low == quote.low
                                    &&& view.volume == quote.volume
                                    &&& view.close == quote.close
                                    &&& view.date == date
                                },
                                _ => r is None,
                            }
                        },
                    },
                },
            },
    {
        let history = match answer {
            Ok(history) => history,
            Err(error) => {
                return Some(Reply::text(BAD_REQUEST, joined("Response  ", &error.message)));
            },
        };
        let quote = match history.last_quote {
            Ok(quote) => quote,
            Err(error) => {
                return Some(Reply::text(BAD_REQUEST, joined("Quote  ", &error.message)));
            },
        };
        let dividend = match history.dividends {
            Ok(dividends) => latest_dividend(&dividends, no_dividend),
            Err(error) => {
                return Some(Reply::text(BAD_REQUEST, joined("Dividend  ", &error.message)));
            },
        };
        let dividend_date = match date_of(dividend.date) {
            Some(moment) => moment,
            None => {
                return None;
            },
        };
        let date = match date_of(quote.timestamp) {
            Some(moment) => moment,
            None => {
                return None;
            },
        };
        Some(
            Reply::json(
                OK,
                TickerView {
                    id: self.id,
                    name: self.name,
                    symbol: self.symbol,
                    dividend_value: dividend.amount,
                    dividend_date,
                    open: quote.open,
                    high: quote.high,
                    low: quote.low,
                    volume: quote.volume,
                    close: quote.close,
                    date,
                },
            ),
        )
    }
}

/// The searches that gave no name: those that failed and those that found
/// nothing.
pub open spec fn nameless() -> spec_fn(Result<Vec<SearchedTicker>, ProviderError>) -> bool {
    |found: Result<Vec<SearchedTicker>, ProviderError>|
        match found {
            Ok(items) => items@.len() == 0,
            Err(_) => true,
        }
}

/// Whether `name` is the long name of the first security that a search
/// found.
pub open spec fn names_first(
    found: Result<Vec<SearchedTicker>, ProviderError>,
    name: String,
) -> bool {
    &&& found matches Ok(items)
    &&& items@.len() > 0
    &&& name@ == items@[0].long_name@
}

/// Whether `dividend` is the last dividend of an answer that did not fail.
pub open spec fn is_last_of<P>(
    answer: Result<Vec<Dividend<P>>, ProviderError>,
    dividend: Dividend<P>,
    no_dividend: P,
) -> bool {
    &&& answer matches Ok(all)
    &&& dividend == last_dividend(all@, no_dividend)
}

/// The long names of the securities that were searched for, one search for
/// each ticker and in their order: the name is that of the first security
/// found. The first search that gave no name decides: its error is returned,
/// or the error for an empty answer.
pub fn get_stocks_name(found: &Vec<Result<Vec<SearchedTicker>, ProviderError>>) -> (r: Result<
    Vec<String>,
    ProviderError,
>)
    ensures
        ({
            let k = first_where(found@, nameless(), 0);
            if k < found@.len() {
                &&& r matches Err(error)
                &&& match found@[k] {
                    Ok(_) => error.is_nothing_found(),
                    Err(cause) => error.same(cause),
                }
            } else {
                &&& r matches Ok(names)
                &&& names@.len() == found@.len()
                &&& forall|i: int|
                    0 <= i < names@.len() ==> names_first(#[trigger] found@[i], names@[i])
            }
        }),
{
    let mut names: Vec<String> = Vec::new();
    let n = found.len();
    let mut i: usize = 0;
    while i < n
        invariant
            n == found@.len(),
            i <= n,
            names@.len() == i,
            first_where(found@, nameless(), 0) == first_where(found@, nameless(), i as int),
            forall|j: int|
                0 <= j < i ==> names_first(#[trigger] found@[j], names@[j]),
        decreases n - i,
    {
        match &found[i] {
            Ok(items) => {
                if items.len() == 0 {
                    return Err(ProviderError::nothing_found());
                }
                names.push(items[0].long_name.clone());
            },
            Err(error) => {
                return Err(error.duplicate());
            },
        }
        i += 1;
    }
    Ok(names)
}

/// The answers that failed.
pub open spec fn failed<T>() -> spec_fn(Result<T, ProviderError>) -> bool {
    |answer: Result<T, ProviderError>| answer is Err
}

/// The latest quotes of the tickers, one answer for each ticker and in
/// their order. The first answer that failed decides: its error is returned.
pub fn get_stocks_values<P: Copy>(answers: &Vec<Result<Quote<P>, ProviderError>>) -> (r: Result<
    Vec<Quote<P>>,
    ProviderError,
>)
    ensures
        ({
            let k = first_where(answers@, failed(), 0);
            if k < answers@.len() {
                r matches Err(error) && answers@[k] matches Err(cause) && error.same(cause)
            } else {
                &&& r matches Ok(quotes)
                &&& quotes@.len() == answers@.len()
                &&& forall|i: int|
                    0 <= i < quotes@.len() ==> #[trigger] answers@[i] == Ok::<
                        Quote<P>,
                        ProviderError,
                    >(quotes@[i])
            }
        }),
{
    let mut quotes: Vec<Quote<P>> = Vec::new();
    let n = answers.len();
    let mut i: usize = 0;
    while i < n
        invariant
            n == answers@.len(),
            i <= n,
            quotes@.len() == i,
            first_where(answers@, failed(), 0) == first_where(answers@, failed(), i as int),
            forall|j: int|
                0 <= j < i ==> #[trigger] answers@[j] == Ok::<Quote<P>, ProviderError>(quotes@[j]),
        decreases n - i,
    {
        match &answers[i] {
            Ok(quote) => {
                quotes.push(*quote);
            },
            Err(error) => {
                return Err(error.duplicate());
            },
        }
        i += 1;
    }
    Ok(quotes)
}

/// The last dividends of the tickers, one answer for each ticker and in
/// their order; a ticker without dividends has `no_dividend` at second 0. The
/// first answer that failed decides: its error is returned.
pub fn get_stocks_dividends<P: Copy>(
    answers: &Vec<Result<Vec<Dividend<P>>, ProviderError>>,
    no_dividend: P,
) -> (r: Result<Vec<Dividend<P>>, ProviderError>)
    ensures
        ({
            let k = first_where(answers@, failed(), 0);
            if k < answers@.len() {
                r matches Err(error) && answers@[k] matches Err(cause) && error.same(cause)
            } else {
                &&& r matches Ok(dividends)
                &&& dividends@.len() == answers@.len()
                &&& forall|i: int|
                    0 <= i < dividends@.len() ==> is_last_of(
                        #[trigger] answers@[i],
                        dividends@[i],
                        no_dividend,
                    )
            }
        }),
{
    let mut dividends: Vec<Dividend<P>> = Vec::new();
    let n = answers.len();
    let mut i: usize = 0;
    while i < n
        invariant
            n == answers@.len(),
            i <= n,
            dividends@.len() == i,
            first_where(answers@, failed(), 0) == first_where(answers@, failed(), i as int),
            forall|j: int|
                0 <= j < i ==> is_last_of(#[trigger] answers@[j], dividends@[j], no_dividend),
        decreases n - i,
    {
        match &answers[i] {
            Ok(all) => {
                dividends.push(latest_dividend(all, no_dividend));
            },
            Err(error) => {
                return Err(error.duplicate());
            },
        }
        i += 1;
    }
    Ok(dividends)
}

/// Which ticker the provider is to be searched for next, `count` tickers
/// being asked about in their order and `found` being the answers so far: the
/// one after the last answer. None is, once a search gave no name or every
/// ticker has its answer.
pub fn next_search(count: usize, found: &Vec<Result<Vec<SearchedTicker>, ProviderError>>) -> (next:
    Option<usize>)
    ensures
        next == if first_where(found@, nameless(), 0) < found@.len() || found@.len() >= count {
            None
        } else {
            Some(found.len())
        },
{
    let n = found.len();
    let mut i: usize = 0;
    while i < n
        invariant
            n == found@.len(),
            i <= n,
            first_where(found@, nameless(), 0) == first_where(found@, nameless(), i as int),
        decreases n - i,
    {
        match &found[i] {
            Ok(items) => {
                if items.len() == 0 {
                    return None;
                }
            },
            Err(_) => {
                return None;
            },
        }
        i += 1;
    }
    if n >= count {
        None
    } else {
        Some(n)
    }
}

/// Which ticker the provider is to be asked about next, `count` tickers
/// being asked about in their order and `answers` being the answers so far:
/// the one after the last answer. None is, once an answer failed or every
/// ticker has its answer.
pub fn next_request<T>(count: usize, answers: &Vec<Result<T, ProviderError>>) -> (next: Option<
    usize,
>)
    ensures
        next == if first_where(answers@, failed(), 0) < answers@.len() || answers@.len()
            >= count {
            None
        } else {
            Some(answers.len())
        },
{
    let n = answers.len();
    let mut i: usize = 0;
    while i < n
        invariant
            n == answers@.len(),
            i <= n,
            first_where(answers@, failed(), 0) == first_where(answers@, failed(), i as int),
        decreases n - i,
    {
        if answers[i].is_err() {
            return None;
        }
        i += 1;
    }
    if n >= count {
        None
    } else {
        Some(n)
    }
}

/// Whether the quotes of a portfolio's tickers are to be asked for: only
/// once their names are there.
pub fn wants_values(names: &Result<Vec<String>, ProviderError>) -> (wanted: bool)
    ensures
        wanted == names is Ok,
{
    names.is_ok()
}

/// Whether `view` shows `ticker` under `name` with the opening price and
/// the date of `quote`.
pub open spec fn shows<P>(
    view: PortfolioTickerView<P>,
    ticker: Ticker,
    name: String,
    quote: Quote<P>,
) -> bool {
    &&& view.id@ == ticker.id@
    &&& view.name@ == name@
    &&& view.symbol@ == ticker.name@
    &&& view.open == quote.open
    &&& moment_of(quote.timestamp) == Some(view.date)
}

/// Replies with the latest opening price of each ticker of a portfolio.
/// `names` and `quotes` hold what [`get_stocks_name`] and
/// [`get_stocks_values`] returned for `tickers`. A failure of the names is
/// answered first, whatever `quotes` holds, then a failure of the quotes.
/// `None` where names or quotes are not as many as the tickers, or where the
/// timestamp of a quote has no date.
pub fn tickers_from_portfolio<P: Copy>(
    tickers: &Vec<Ticker>,
    names: Result<Vec<String>, ProviderError>,
    quotes: Result<Vec<Quote<P>>, ProviderError>,
) -> (r: Option<Reply<Vec<PortfolioTickerView<P>>>>)
    ensures
        match (names, quotes) {
            (Err(error), _) => r matches Some(reply) && reply.says(
                BAD_REQUEST,
                "Ticker names: "@ + error.message@,
            ),
            (Ok(_), Err(error)) => r matches Some(reply) && reply.says(
                BAD_REQUEST,
                "Ticker values: "@ + error.message@,
            ),
            (Ok(names), Ok(quotes)) => if names@.len() == tickers@.len() && quotes@.len()
                == tickers@.len() && forall|i: int|
                0 <= i < quotes@.len() ==> moment_of((#[trigger] quotes@[i]).timestamp) is Some {
                &&& r matches Some(reply)
                &&& reply.status == OK
                &&& reply.body matches Body::Json(views)
                &&& views@.len() == tickers@.len()
                &&& forall|i: int|
                    0 <= i < views@.len() ==> shows(
                        #[trigger] views@[i],
                        tickers@[i],
                        names@[i],
                        quotes@[i],
                    )
            } else {
                r is None
            },
        },
{
    let ghost asked = (names, quotes);
    let labels = match names {
        Ok(result) => result,
        Err(error) => {
            return Some(Reply::text(BAD_REQUEST, joined("Ticker names: ", &error.message)));
        },
    };
    let values = match quotes {
        Ok(result) => result,
        Err(error) => {
            return Some(Reply::text(BAD_REQUEST, joined("Ticker values: ", &error.message)));
        },
    };
    let n = tickers.len();
    if labels.len() != n || values.len() != n {
        return None;
    }
    let mut tickers_info: Vec<PortfolioTickerView<P>> = Vec::new();
    let mut i: usize = 0;
    while i < n
        invariant
            asked == (
                Ok::<Vec<String>, ProviderError>(labels),
                Ok::<Vec<Quote<P>>, ProviderError>(values),
            ),
            asked == (names, quotes),
            n == tickers@.len(),
            n == labels@.len(),
            n == values@.len(),
            i <= n,
            tickers_info@.len() == i,
            forall|j: int|
                0 <= j < i ==> shows(
                    #[trigger] tickers_info@[j],
                    tickers@[j],
                    labels@[j],
                    values@[j],
                ),
            forall|j: int| 0 <= j < i ==> moment_of((#[trigger] values@[j]).timestamp) is Some,
        decreases n - i,
    {
        let date = match date_of(values[i].timestamp) {
            Some(moment) => moment,
            None => {
                assert(moment_of(values@[i as int].timestamp) is None);
                return None;
            },
        };
        let info = PortfolioTickerView {
            id: tickers[i].id.clone(),
            name: labels[i].clone(),
            symbol: tickers[i].name.clone(),
            open: values[i].open,
            date,
        };
        tickers_info.push(info);
        i += 1;
    }
    Some(Reply::json(OK, tickers_info))
}

} // verus!
