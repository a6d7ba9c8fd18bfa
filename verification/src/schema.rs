//! The store: three tables of records, each record found by its identifier.

use crate::models::portfolio::{portfolio_rows, Portfolio, PortfolioRow};
use crate::models::ticker::{ticker_rows, Ticker, TickerRow};
use crate::models::user::{user_rows, User, UserRow};
use vstd::prelude::*;
use vstd::string::*;

verus! {

/// The three tables. A record stays in its table for good: deleting one sets
/// its flag.
#[derive(Debug, PartialEq, Eq)]
pub struct Database {
    pub users: Vec<User>,
    pub portfolios: Vec<Portfolio>,
    pub tickers: Vec<Ticker>,
}

/// What a [`Database`] holds, as mathematical sequences in the order of
/// insertion.
pub struct Tables {
    pub users: Seq<UserRow>,
    pub portfolios: Seq<PortfolioRow>,
    pub tickers: Seq<TickerRow>,
}

impl View for Database {
    type V = Tables;

    open spec fn view(&self) -> Tables {
        Tables {
            users: user_rows(self.users@),
            portfolios: portfolio_rows(self.portfolios@),
            tickers: ticker_rows(self.tickers@),
        }
    }
}

/// No two users share an identifier.
pub open spec fn distinct_users(users: Seq<UserRow>) -> bool {
    forall|i: int, j: int|
        0 <= i < j < users.len() ==> (#[trigger] users[i]).id != (#[trigger] users[j]).id
}

/// No two portfolios share an identifier.
pub open spec fn distinct_portfolios(portfolios: Seq<PortfolioRow>) -> bool {
    forall|i: int, j: int|
        0 <= i < j < portfolios.len() ==> (#[trigger] portfolios[i]).id != (
        #[trigger] portfolios[j]).id
}

/// No two tickers share an identifier.
pub open spec fn distinct_tickers(tickers: Seq<TickerRow>) -> bool {
    forall|i: int, j: int|
        0 <= i < j < tickers.len() ==> (#[trigger] tickers[i]).id != (#[trigger] tickers[j]).id
}

impl Tables {
    /// The identifier of a record is its key: no table holds one twice.
    pub open spec fn wf(self) -> bool {
        &&& distinct_users(self.users)
        &&& distinct_portfolios(self.portfolios)
        &&& distinct_tickers(self.tickers)
    }
}

impl Database {
    /// See [`Tables::wf`].
    pub open spec fn wf(&self) -> bool {
        self@.wf()
    }

    /// A store without records.
    pub fn new() -> (db: Database)
        ensures
            db.wf(),
            db@.users.len() == 0,
            db@.portfolios.len() == 0,
            db@.tickers.len() == 0,
    {
        Database { users: Vec::new(), portfolios: Vec::new(), tickers: Vec::new() }
    }
}

/// Whether no two of `users` share an identifier.
fn users_distinct(users: &Vec<User>) -> (r: bool)
    ensures
        r == distinct_users(user_rows(users@)),
{
    let ghost rows = user_rows(users@);
    let n = users.len();
    let mut j: usize = 0;
    while j < n
        invariant
            n == users@.len(),
            j <= n,
            rows == user_rows(users@),
            forall|a: int, b: int|
                0 <= a < b < j ==> (#[trigger] rows[a]).id != (#[trigger] rows[b]).id,
        decreases n - j,
    {
        let mut i: usize = 0;
        while i < j
            invariant
                n == users@.len(),
                i <= j < n,
                rows == user_rows(users@),
                forall|a: int| 0 <= a < i ==> (#[trigger] rows[a]).id != rows[j as int].id,
            decreases j - i,
        {
            if users[i].id == users[j].id {
                assert(rows[i as int].id == rows[j as int].id);
                return false;
            }
            i += 1;
        }
        j += 1;
    }
    true
}

/// Whether no two of `portfolios` share an identifier.
fn portfolios_distinct(portfolios: &Vec<Portfolio>) -> (r: bool)
    ensures
        r == distinct_portfolios(portfolio_rows(portfolios@)),
{
    let ghost rows = portfolio_rows(portfolios@);
    let n = portfolios.len();
    let mut j: usize = 0;
    while j < n
        invariant
            n == portfolios@.len(),
            j <= n,
            rows == portfolio_rows(portfolios@),
            forall|a: int, b: int|
                0 <= a < b < j ==> (#[trigger] rows[a]).id != (#[trigger] rows[b]).id,
        decreases n - j,
    {
        let mut i: usize = 0;
        while i < j
            invariant
                n == portfolios@.len(),
                i <= j < n,
                rows == portfolio_rows(portfolios@),
                forall|a: int| 0 <= a < i ==> (#[trigger] rows[a]).id != rows[j as int].id,
            decreases j - i,
        {
            if portfolios[i].id == portfolios[j].id {
                assert(rows[i as int].id == rows[j as int].id);
                return false;
            }
            i += 1;
        }
        j += 1;
    }
    true
}

/// Whether no two of `tickers` share an identifier.
fn tickers_distinct(tickers: &Vec<Ticker>) -> (r: bool)
    ensures
        r == distinct_tickers(ticker_rows(tickers@)),
{
    let ghost rows = ticker_rows(tickers@);
    let n = tickers.len();
    let mut j: usize = 0;
    while j < n
        invariant
            n == tickers@.len(),
            j <= n,
            rows == ticker_rows(tickers@),
            forall|a: int, b: int|
                0 <= a < b < j ==> (#[trigger] rows[a]).id != (#[trigger] rows[b]).id,
        decreases n - j,
    {
        let mut i: usize = 0;
        while i < j
            invariant
                n == tickers@.len(),
                i <= j < n,
                rows == ticker_rows(tickers@),
                forall|a: int| 0 <= a < i ==> (#[trigger] rows[a]).id != rows[j as int].id,
            decreases j - i,
        {
            if tickers[i].id == tickers[j].id {
                assert(rows[i as int].id == rows[j as int].id);
                return false;
            }
            i += 1;
        }
        j += 1;
    }
    true
}

impl Database {
    /// Whether the store is well formed: see [`Tables::wf`].
    pub fn is_consistent(&self) -> (r: bool)
        ensures
            r == self.wf(),
    {
        users_distinct(&self.users) && portfolios_distinct(&self.portfolios) && tickers_distinct(
            &self.tickers,
        )
    }
}

/// The records among the first `upto` of `after` that are to be written to
/// bring a table from `before` to `after`, in their order: those that `before`
/// does not hold at the same place as they are. Records are never removed, so
/// these are the new ones and the ones that were changed.
pub open spec fn written<T>(before: Seq<T>, after: Seq<T>, upto: int) -> Seq<T>
    decreases upto,
{
    if upto <= 0 {
        Seq::empty()
    } else {
        let earlier = written(before, after, upto - 1);
        if upto - 1 < before.len() && before[upto - 1] == after[upto - 1] {
            earlier
        } else {
            earlier.push(after[upto - 1])
        }
    }
}

/// The users of `after` that are to be written: see [`written`].
fn users_written(before: &Vec<User>, after: &Vec<User>) -> (list: Vec<User>)
    ensures
        user_rows(list@) == written(
            user_rows(before@),
            user_rows(after@),
            after@.len() as int,
        ),
{
    let ghost was = user_rows(before@);
    let ghost is_now = user_rows(after@);
    let mut list: Vec<User> = Vec::new();
    let n = after.len();
    let mut i: usize = 0;
    assert(user_rows(list@) =~= written(was, is_now, 0));
    while i < n
        invariant
            n == after@.len(),
            i <= n,
            was == user_rows(before@),
            is_now == user_rows(after@),
            user_rows(list@) == written(was, is_now, i as int),
        decreases n - i,
    {
        let kept = i < before.len() && before[i].same(&after[i]);
        if !kept {
            let ghost earlier = list@;
            list.push(after[i].duplicate());
            assert(user_rows(list@) =~= user_rows(earlier).push(is_now[i as int]));
        }
        i += 1;
    }
    list
}

/// The portfolios of `after` that are to be written: see [`written`].
fn portfolios_written(before: &Vec<Portfolio>, after: &Vec<Portfolio>) -> (list: Vec<Portfolio>)
    ensures
        portfolio_rows(list@) == written(
            portfolio_rows(before@),
            portfolio_rows(after@),
            after@.len() as int,
        ),
{
    let ghost was = portfolio_rows(before@);
    let ghost is_now = portfolio_rows(after@);
    let mut list: Vec<Portfolio> = Vec::new();
    let n = after.len();
    let mut i: usize = 0;
    assert(portfolio_rows(list@) =~= written(was, is_now, 0));
    while i < n
        invariant
            n == after@.len(),
            i <= n,
            was == portfolio_rows(before@),
            is_now == portfolio_rows(after@),
            portfolio_rows(list@) == written(was, is_now, i as int),
        decreases n - i,
    {
        let kept = i < before.len() && before[i].same(&after[i]);
        if !kept {
            let ghost earlier = list@;
            list.push(after[i].duplicate());
            assert(portfolio_rows(list@) =~= portfolio_rows(earlier).push(is_now[i as int]));
        }
        i += 1;
    }
    list
}

/// The tickers of `after` that are to be written: see [`written`].
fn tickers_written(before: &Vec<Ticker>, after: &Vec<Ticker>) -> (list: Vec<Ticker>)
    ensures
        ticker_rows(list@) == written(
            ticker_rows(before@),
            ticker_rows(after@),
            after@.len() as int,
        ),
{
    let ghost was = ticker_rows(before@);
    let ghost is_now = ticker_rows(after@);
    let mut list: Vec<Ticker> = Vec::new();
    let n = after.len();
    let mut i: usize = 0;
    assert(ticker_rows(list@) =~= written(was, is_now, 0));
    while i < n
        invariant
            n == after@.len(),
            i <= n,
            was == ticker_rows(before@),
            is_now == ticker_rows(after@),
            ticker_rows(list@) == written(was, is_now, i as int),
        decreases n - i,
    {
        let kept = i < before.len() && before[i].same(&after[i]);
        if !kept {
            let ghost earlier = list@;
            list.push(after[i].duplicate());
            assert(ticker_rows(list@) =~= ticker_rows(earlier).push(is_now[i as int]));
        }
        i += 1;
    }
    list
}

impl Database {
    /// What is to be written to bring a database that holds `before` to what
    /// this store holds: of each table the records that [`written`] names.
    pub fn changes_since(&self, before: &Database) -> (changes: Database)
        ensures
            changes@.users == written(before@.users, self@.users, self@.users.len() as int),
            changes@.portfolios == written(
                before@.portfolios,
                self@.portfolios,
                self@.portfolios.len() as int,
            ),
            changes@.tickers == written(
                before@.tickers,
                self@.tickers,
                self@.tickers.len() as int,
            ),
    {
        Database {
            users: users_written(&before.users, &self.users),
            portfolios: portfolios_written(&before.portfolios, &self.portfolios),
            tickers: tickers_written(&before.tickers, &self.tickers),
        }
    }
}

} // verus!
